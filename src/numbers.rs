//! Decimal numbers as they appear in SSML attribute values, without floating point: a number is
//! held as an integer mantissa and the count of digits after the decimal point.
use vstd::prelude::*;
use crate::text::{
    all_digits, append_chars, digit_value, digits_value, find_char, index_of, is_digit, lemma_index_of_absent,
    lemma_index_of_bounds, lemma_index_of_found,
};

verus! {

/// A non-negative decimal number `mantissa / 10^scale`, as written: `"2.50"` is mantissa 250
/// with scale 2.
#[derive(Clone, Copy, Debug, PartialEq, Eq, Structural)]
pub struct Decimal {
    pub mantissa: u64,
    pub scale: u32,
}

pub open spec fn digit_char(n: nat) -> char {
    if n == 0 { '0' } else if n == 1 { '1' } else if n == 2 { '2' } else if n == 3 { '3' }
    else if n == 4 { '4' } else if n == 5 { '5' } else if n == 6 { '6' } else if n == 7 { '7' }
    else if n == 8 { '8' } else { '9' }
}

/// Decimal digits of `n`, most significant first, without leading zeros.
pub open spec fn nat_digits(n: nat) -> Seq<char>
    decreases n,
{
    if n < 10 {
        seq![digit_char(n)]
    } else {
        nat_digits(n / 10).push(digit_char(n % 10))
    }
}

pub open spec fn zeros(k: nat) -> Seq<char> {
    Seq::new(k, |i: int| '0')
}

/// Digits of `n`, left-padded with zeros to at least `width` characters.
pub open spec fn padded_digits(n: nat, width: nat) -> Seq<char> {
    let d = nat_digits(n);
    if d.len() >= width {
        d
    } else {
        zeros((width - d.len()) as nat) + d
    }
}

/// The canonical spelling of a decimal: its digits with a point before the last `scale` ones.
pub open spec fn decimal_chars(d: Decimal) -> Seq<char> {
    let p = padded_digits(d.mantissa as nat, d.scale as nat + 1);
    if d.scale == 0 {
        p
    } else {
        p.take(p.len() - d.scale) + seq!['.'] + p.skip(p.len() - d.scale)
    }
}

/// `digits` when it is a non-empty run of decimal digits whose value fits in a `u64`.
pub open spec fn spec_parse_digits(s: Seq<char>) -> Option<u64> {
    if s.len() > 0 && all_digits(s) && digits_value(s) <= u64::MAX {
        Some(digits_value(s) as u64)
    } else {
        None
    }
}

/// The grammar `(digit* ".")? digit+`, read as a decimal.
pub open spec fn spec_parse_decimal(s: Seq<char>) -> Option<Decimal> {
    let k = index_of(s, '.');
    if k < 0 {
        match spec_parse_digits(s) {
            Some(m) => Some(Decimal { mantissa: m, scale: 0 }),
            None => None,
        }
    } else {
        let frac = s.skip(k + 1);
        if frac.len() == 0 || frac.len() > u32::MAX {
            None
        } else {
            match spec_parse_digits(s.take(k) + frac) {
                Some(m) => Some(Decimal { mantissa: m, scale: frac.len() as u32 }),
                None => None,
            }
        }
    }
}

/// The grammar `"+"? digit+`, read as an integer no larger than `max`.
pub open spec fn spec_parse_unsigned(s: Seq<char>, max: u64) -> Option<u64> {
    let body = if s.len() > 0 && s[0] == '+' { s.drop_first() } else { s };
    match spec_parse_digits(body) {
        Some(v) => if v <= max { Some(v) } else { None },
        None => None,
    }
}

proof fn lemma_digits_value_prefix(s: Seq<char>, i: int)
    requires
        0 <= i <= s.len(),
    ensures
        digits_value(s.take(i)) <= digits_value(s),
    decreases s.len(),
{
    if i < s.len() {
        assert(s.take(i) =~= s.drop_last().take(i));
        lemma_digits_value_prefix(s.drop_last(), i);
    } else {
        assert(s.take(i) =~= s);
    }
}

proof fn lemma_digit_char(m: nat)
    requires
        m < 10,
    ensures
        is_digit(digit_char(m)),
        digit_value(digit_char(m)) == m,
        m > 0 ==> digit_char(m) != '0',
{
}

pub proof fn lemma_nat_digits(n: nat)
    ensures
        all_digits(nat_digits(n)),
        nat_digits(n).len() >= 1,
        digits_value(nat_digits(n)) == n,
        n > 0 ==> nat_digits(n)[0] != '0',
    decreases n,
{
    lemma_digit_char(n % 10);
    if n < 10 {
        let d = nat_digits(n);
        assert(d.drop_last() =~= Seq::<char>::empty());
        assert(digits_value(d) == digits_value(d.drop_last()) * 10 + digit_value(d.last()));
    } else {
        lemma_nat_digits(n / 10);
        let d = nat_digits(n);
        assert(d.drop_last() =~= nat_digits(n / 10));
        assert(d[0] == nat_digits(n / 10)[0]);
        assert(d.last() == digit_char(n % 10));
        assert(digits_value(d) == digits_value(d.drop_last()) * 10 + digit_value(d.last()));
        assert((n / 10) * 10 + n % 10 == n) by (nonlinear_arith);
    }
}

proof fn lemma_zeros_value(k: nat, x: Seq<char>)
    requires
        all_digits(x),
    ensures
        digits_value(zeros(k) + x) == digits_value(x),
        all_digits(zeros(k) + x),
    decreases x.len() + k,
{
    if x.len() > 0 {
        assert((zeros(k) + x).drop_last() =~= zeros(k) + x.drop_last());
        lemma_zeros_value(k, x.drop_last());
    } else if k > 0 {
        assert((zeros(k) + x).drop_last() =~= zeros((k - 1) as nat) + x);
        lemma_zeros_value((k - 1) as nat, x);
    } else {
        assert(zeros(k) + x =~= x);
    }
}

pub proof fn lemma_padded_digits(n: nat, w: nat)
    ensures
        all_digits(padded_digits(n, w)),
        padded_digits(n, w).len() >= w,
        padded_digits(n, w).len() >= 1,
        digits_value(padded_digits(n, w)) == n,
{
    lemma_nat_digits(n);
    let d = nat_digits(n);
    if d.len() < w {
        lemma_zeros_value((w - d.len()) as nat, d);
    }
}

/// Formatting a decimal and reading it back gives the same decimal.
pub proof fn lemma_decimal_round_trip(d: Decimal)
    ensures
        spec_parse_decimal(decimal_chars(d)) == Some(d),
        decimal_chars(d).len() > 0,
        is_digit(decimal_chars(d)[0]),
        is_digit(decimal_chars(d).last()),
        all_digits(decimal_chars(d)) || d.scale > 0,
        forall|i: int| 0 <= i < decimal_chars(d).len() ==> #[trigger] decimal_chars(d)[i] == '.' || is_digit(decimal_chars(d)[i]),
{
    let p = padded_digits(d.mantissa as nat, d.scale as nat + 1);
    lemma_padded_digits(d.mantissa as nat, d.scale as nat + 1);
    let s = decimal_chars(d);
    if d.scale == 0 {
        assert forall|j: int| 0 <= j < s.len() implies s[j] != '.' by {
            assert(is_digit(s[j]));
        }
        lemma_index_of_absent(s, '.');
    } else {
        let k = p.len() - d.scale;
        let int_part = p.take(k);
        let frac = p.skip(k);
        assert(s =~= int_part + seq!['.'] + frac);
        assert forall|j: int| 0 <= j < k implies s[j] != '.' by {
            assert(s[j] == p[j]);
            assert(is_digit(p[j]));
        }
        lemma_index_of_found(s, '.', k);
        assert(s.skip(k + 1) =~= frac);
        assert(s.take(k) + s.skip(k + 1) =~= p);
        assert forall|i: int| 0 <= i < s.len() implies #[trigger] s[i] == '.' || is_digit(s[i]) by {
            if i < k {
                assert(s[i] == p[i]);
            } else if i > k {
                assert(s[i] == p[i - 1]);
            }
        }
        assert(s[0] == p[0]);
        assert(s.last() == p.last());
    }
}

/// Value of a non-empty run of digits, when it fits in a `u64`.
pub fn parse_digits(s: &Vec<char>) -> (r: Option<u64>)
    ensures
        r == spec_parse_digits(s@),
{
    if s.len() == 0 {
        return None;
    }
    let mut acc: u64 = 0;
    let mut i: usize = 0;
    while i < s.len()
        invariant
            i <= s.len(),
            all_digits(s@.take(i as int)),
            acc as nat == digits_value(s@.take(i as int)),
        decreases s.len() - i,
    {
        let c = s[i];
        if !('0' <= c && c <= '9') {
            assert(!is_digit(s@[i as int]));
            return None;
        }
        let d = (c as u32 - '0' as u32) as u64;
        assert(s@.take(i + 1).drop_last() =~= s@.take(i as int));
        if acc > (u64::MAX - d) / 10 {
            proof {
                assert(acc * 10 + d > u64::MAX) by (nonlinear_arith)
                    requires acc > (u64::MAX - d) / 10, d <= 9;
                lemma_digits_value_prefix(s@, i + 1);
            }
            if i + 1 < s.len() {
                assert(digits_value(s@.take(i + 1)) > u64::MAX);
            } else {
                assert(s@.take(i + 1) =~= s@);
            }
            return None;
        }
        proof {
            assert(acc * 10 + d <= u64::MAX) by (nonlinear_arith)
                requires acc <= (u64::MAX - d) / 10, d <= 9;
        }
        acc = acc * 10 + d;
        i += 1;
        assert forall|j: int| 0 <= j < i implies is_digit(#[trigger] s@.take(i as int)[j]) by {
            if j < i - 1 {
                assert(s@.take(i as int)[j] == s@.take(i - 1)[j]);
            }
        }
    }
    assert(s@.take(i as int) =~= s@);
    Some(acc)
}

/// The characters `s[from..to]`.
pub fn sub_chars(s: &Vec<char>, from: usize, to: usize) -> (r: Vec<char>)
    requires
        from <= to <= s.len(),
    ensures
        r@ == s@.subrange(from as int, to as int),
{
    let mut v: Vec<char> = Vec::new();
    let mut i = from;
    while i < to
        invariant
            from <= i <= to <= s.len(),
            v@ == s@.subrange(from as int, i as int),
        decreases to - i,
    {
        v.push(s[i]);
        i += 1;
        assert(v@ =~= s@.subrange(from as int, i as int));
    }
    v
}

/// Reads the grammar `(digit* ".")? digit+` as a decimal.
pub fn parse_decimal_chars(s: &Vec<char>) -> (r: Option<Decimal>)
    ensures
        r == spec_parse_decimal(s@),
{
    match find_char(s, '.') {
        None => match parse_digits(s) {
            Some(m) => Some(Decimal { mantissa: m, scale: 0 }),
            None => None,
        },
        Some(k) => {
            proof { lemma_index_of_bounds(s@, '.'); }
            let flen = s.len() - k - 1;
            if flen == 0 || flen > u32::MAX as usize {
                assert(s@.skip(k + 1).len() == flen);
                return None;
            }
            let mut joined = sub_chars(s, 0, k);
            let frac = sub_chars(s, k + 1, s.len());
            append_chars(&mut joined, &frac);
            assert(s@.take(k as int) =~= s@.subrange(0, k as int));
            assert(s@.skip(k + 1) =~= s@.subrange(k + 1, s.len() as int));
            match parse_digits(&joined) {
                Some(m) => Some(Decimal { mantissa: m, scale: flen as u32 }),
                None => None,
            }
        },
    }
}

/// Reads the grammar `"+"? digit+` as an integer no larger than `max`.
pub fn parse_unsigned_chars(s: &Vec<char>, max: u64) -> (r: Option<u64>)
    ensures
        r == spec_parse_unsigned(s@, max),
{
    let body = if s.len() > 0 && s[0] == '+' {
        let b = sub_chars(s, 1, s.len());
        assert(b@ =~= s@.drop_first());
        b
    } else {
        sub_chars(s, 0, s.len())
    };
    assert(s@.subrange(0, s.len() as int) =~= s@);
    match parse_digits(&body) {
        Some(v) => if v <= max { Some(v) } else { None },
        None => None,
    }
}

fn digit_of(n: u64) -> (c: char)
    requires
        n < 10,
    ensures
        c == digit_char(n as nat),
{
    if n == 0 { '0' } else if n == 1 { '1' } else if n == 2 { '2' } else if n == 3 { '3' }
    else if n == 4 { '4' } else if n == 5 { '5' } else if n == 6 { '6' } else if n == 7 { '7' }
    else if n == 8 { '8' } else { '9' }
}

/// Decimal digits of `n`.
pub fn format_unsigned(n: u64) -> (r: Vec<char>)
    ensures
        r@ == nat_digits(n as nat),
    decreases n,
{
    if n < 10 {
        let mut v: Vec<char> = Vec::new();
        v.push(digit_of(n));
        assert(v@ =~= seq![digit_char(n as nat)]);
        v
    } else {
        let mut v = format_unsigned(n / 10);
        v.push(digit_of(n % 10));
        v
    }
}

/// The canonical spelling of a decimal number.
pub fn format_decimal(d: &Decimal) -> (r: Vec<char>)
    ensures
        r@ == decimal_chars(*d),
{
    let digits = format_unsigned(d.mantissa);
    let width = d.scale as u64 + 1;
    let mut p: Vec<char> = Vec::new();
    if (digits.len() as u64) < width {
        let pad = width - digits.len() as u64;
        let mut i: u64 = 0;
        while i < pad
            invariant
                i <= pad,
                p@ == zeros(i as nat),
            decreases pad - i,
        {
            p.push('0');
            i += 1;
            assert(p@ =~= zeros(i as nat));
        }
    }
    append_chars(&mut p, &digits);
    assert(p@ =~= padded_digits(d.mantissa as nat, d.scale as nat + 1));
    proof { lemma_padded_digits(d.mantissa as nat, d.scale as nat + 1); }
    if d.scale == 0 {
        p
    } else {
        let k = p.len() - d.scale as usize;
        let mut r = sub_chars(&p, 0, k);
        r.push('.');
        let frac = sub_chars(&p, k, p.len());
        append_chars(&mut r, &frac);
        assert(r@ =~= p@.take(k as int) + seq!['.'] + p@.skip(k as int));
        r
    }
}

} // verus!
