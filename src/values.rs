//! The grammars of SSML attribute values: each value type has a parser from characters and a
//! canonical spelling, stated as spec functions over `Seq<char>` that the executable code meets.
use vstd::prelude::*;
use vstd::arithmetic::power::pow;
use crate::numbers::{
    decimal_chars, format_decimal, format_unsigned, lemma_decimal_round_trip, nat_digits,
    parse_decimal_chars, parse_unsigned_chars, spec_parse_decimal, spec_parse_unsigned, sub_chars,
    Decimal,
};
use crate::labels::{
    lemma_pitch_strength_round_trip, lemma_rate_strength_round_trip,
    lemma_volume_strength_round_trip, parse_pitch_strength_chars, parse_rate_strength_chars,
    parse_strength_chars, parse_volume_strength_chars, pitch_strength_chars, rate_strength_chars,
    spec_parse_pitch_strength, spec_parse_rate_strength, spec_parse_strength,
    spec_parse_volume_strength, volume_strength_chars, PitchStrength, RateStrength, Strength,
    VolumeStrength,
};
use crate::text::{append_chars, append_str, chars_of, index_of, is_digit, string_of};

verus! {

/// The value grammars, named in errors.
#[derive(Clone, Copy, Debug, PartialEq, Eq, Structural)]
pub enum Grammar {
    TimeDesignation,
    Strength,
    PitchStrength,
    VolumeStrength,
    RateStrength,
    EmphasisLevel,
    PitchRange,
    PitchContour,
    VolumeRange,
    RateRange,
    PositiveNumber,
    Decibel,
    Percentage,
    Gender,
    OnLanguageFailure,
    FetchHint,
    LanguageAccentPair,
    Integer,
    Uri,
    MediaType,
}

/// A value that does not follow its grammar.
#[derive(Clone, Debug, PartialEq, Eq)]
pub struct InvalidValue {
    /// The grammar the value was read against.
    pub expected: Grammar,
    /// The value as written.
    pub actual: String,
}

/// Builds the error for `s` read against `g`.
pub fn invalid(g: Grammar, s: &str) -> (e: InvalidValue)
    ensures
        e.expected == g,
        e.actual@ == s@,
{
    InvalidValue { expected: g, actual: String::from_str(s) }
}

/// The outcome of an executable parser, stated against the spec parser's result.
pub open spec fn parsed_as<T>(r: Result<T, InvalidValue>, spec: Option<T>, g: Grammar, s: Seq<char>) -> bool {
    match r {
        Ok(v) => spec == Some(v),
        Err(e) => spec is None && e.expected == g && e.actual@ == s,
    }
}

pub open spec fn ends_with1(s: Seq<char>, a: char) -> bool {
    s.len() >= 1 && s[s.len() - 1] == a
}

pub open spec fn ends_with2(s: Seq<char>, a: char, b: char) -> bool {
    s.len() >= 2 && s[s.len() - 2] == a && s[s.len() - 1] == b
}

fn vec_ends_with1(s: &Vec<char>, a: char) -> (r: bool)
    ensures
        r == ends_with1(s@, a),
{
    s.len() >= 1 && s[s.len() - 1] == a
}

fn vec_ends_with2(s: &Vec<char>, a: char, b: char) -> (r: bool)
    ensures
        r == ends_with2(s@, a, b),
{
    s.len() >= 2 && s[s.len() - 2] == a && s[s.len() - 1] == b
}

fn drop_last_n(s: &Vec<char>, n: usize) -> (r: Vec<char>)
    requires
        n <= s.len(),
    ensures
        r@ == s@.take(s.len() - n),
{
    let r = sub_chars(s, 0, s.len() - n);
    assert(r@ =~= s@.take(s.len() - n));
    r
}

fn drop_first_char(s: &Vec<char>) -> (r: Vec<char>)
    requires
        s.len() >= 1,
    ensures
        r@ == s@.drop_first(),
{
    let r = sub_chars(s, 1, s.len());
    assert(r@ =~= s@.drop_first());
    r
}

// ---------------------------------------------------------------- sign and unit

/// Direction of a relative change.
#[derive(Clone, Copy, Debug, PartialEq, Eq, Structural)]
pub enum Sign {
    Plus,
    Minus,
}

pub open spec fn sign_char(s: Sign) -> char {
    match s {
        Sign::Plus => '+',
        Sign::Minus => '-',
    }
}

impl Sign {
    /// The sign's character.
    pub fn to_char(&self) -> (c: char)
        ensures
            c == sign_char(*self),
    {
        match self {
            Sign::Plus => '+',
            Sign::Minus => '-',
        }
    }
}

/// Unit of a relative pitch change.
#[derive(Clone, Copy, Debug, PartialEq, Eq, Structural)]
pub enum Unit {
    Hz,
    St,
    Percentage,
}

pub open spec fn unit_chars(u: Unit) -> Seq<char> {
    match u {
        Unit::Hz => seq!['H', 'z'],
        Unit::St => seq!['s', 't'],
        Unit::Percentage => seq!['%'],
    }
}

impl Unit {
    /// The unit's spelling.
    pub fn to_chars(&self) -> (r: Vec<char>)
        ensures
            r@ == unit_chars(*self),
    {
        let mut v: Vec<char> = Vec::new();
        match self {
            Unit::Hz => {
                v.push('H');
                v.push('z');
            },
            Unit::St => {
                v.push('s');
                v.push('t');
            },
            Unit::Percentage => {
                v.push('%');
            },
        }
        assert(v@ =~= unit_chars(*self));
        v
    }
}

// ---------------------------------------------------------------- time designation

/// An SSML time: a number of seconds or of milliseconds.
#[derive(Clone, Copy, Debug, PartialEq, Eq, Structural)]
pub enum TimeDesignation {
    Seconds(Decimal),
    Milliseconds(Decimal),
}

/// `s` without one leading `+`.
pub open spec fn strip_plus(s: Seq<char>) -> Seq<char> {
    if s.len() > 0 && s[0] == '+' {
        s.drop_first()
    } else {
        s
    }
}

/// The grammar `"+"? (digit* ".")? digit+ ("s" | "ms")`.
pub open spec fn spec_parse_time(s: Seq<char>) -> Option<TimeDesignation> {
    let b = strip_plus(s);
    if ends_with2(b, 'm', 's') {
        match spec_parse_decimal(b.take(b.len() - 2)) {
            Some(d) => Some(TimeDesignation::Milliseconds(d)),
            None => None,
        }
    } else if ends_with1(b, 's') {
        match spec_parse_decimal(b.take(b.len() - 1)) {
            Some(d) => Some(TimeDesignation::Seconds(d)),
            None => None,
        }
    } else {
        None
    }
}

pub open spec fn time_chars(t: TimeDesignation) -> Seq<char> {
    match t {
        TimeDesignation::Seconds(d) => decimal_chars(d) + seq!['s'],
        TimeDesignation::Milliseconds(d) => decimal_chars(d) + seq!['m', 's'],
    }
}

fn strip_plus_vec(s: &Vec<char>) -> (r: Vec<char>)
    ensures
        r@ == strip_plus(s@),
{
    if s.len() > 0 && s[0] == '+' {
        drop_first_char(s)
    } else {
        let r = sub_chars(s, 0, s.len());
        assert(r@ =~= s@);
        r
    }
}

/// Reads a time designation.
pub fn parse_time_chars(s: &Vec<char>) -> (r: Option<TimeDesignation>)
    ensures
        r == spec_parse_time(s@),
{
    let b = strip_plus_vec(s);
    if vec_ends_with2(&b, 'm', 's') {
        match parse_decimal_chars(&drop_last_n(&b, 2)) {
            Some(d) => Some(TimeDesignation::Milliseconds(d)),
            None => None,
        }
    } else if vec_ends_with1(&b, 's') {
        match parse_decimal_chars(&drop_last_n(&b, 1)) {
            Some(d) => Some(TimeDesignation::Seconds(d)),
            None => None,
        }
    } else {
        None
    }
}

pub fn format_time(t: &TimeDesignation) -> (r: Vec<char>)
    ensures
        r@ == time_chars(*t),
{
    match t {
        TimeDesignation::Seconds(d) => {
            let mut v = format_decimal(d);
            v.push('s');
            v
        },
        TimeDesignation::Milliseconds(d) => {
            let mut v = format_decimal(d);
            v.push('m');
            v.push('s');
            assert(v@ =~= decimal_chars(*d) + seq!['m', 's']);
            v
        },
    }
}

impl TimeDesignation {
    /// Reads `s` as a time designation such as `"250ms"` or `"+1.5s"`.
    pub fn from_str(s: &str) -> (r: Result<TimeDesignation, InvalidValue>)
        ensures
            parsed_as(r, spec_parse_time(s@), Grammar::TimeDesignation, s@),
    {
        match parse_time_chars(&chars_of(s)) {
            Some(t) => Ok(t),
            None => Err(invalid(Grammar::TimeDesignation, s)),
        }
    }

    /// The canonical spelling, such as `"250ms"`.
    pub fn to_string(&self) -> (r: String)
        ensures
            r@ == time_chars(*self),
    {
        string_of(&format_time(self))
    }
}

/// A time in whole nanoseconds, rounded down.
pub open spec fn time_nanos(t: TimeDesignation) -> int {
    match t {
        TimeDesignation::Seconds(d) => (d.mantissa * pow(10, 9)) / pow(10, d.scale as nat),
        TimeDesignation::Milliseconds(d) => (d.mantissa * pow(10, 6)) / pow(10, d.scale as nat),
    }
}

fn pow10(n: u32) -> (r: u128)
    requires
        n <= 38,
    ensures
        r == pow(10, n as nat),
{
    let mut r: u128 = 1;
    let mut i: u32 = 0;
    proof { reveal(pow); }
    while i < n
        invariant
            i <= n <= 38,
            r == pow(10, i as nat),
            r <= 100000000000000000000000000000000000000u128,
        decreases n - i,
    {
        proof {
            reveal(pow);
            vstd::arithmetic::power::lemma_pow_increases(10, (i + 1) as nat, 38);
            lemma_pow10_38();
        }
        r = r * 10;
        i += 1;
    }
    r
}

proof fn lemma_pow10_38()
    ensures
        pow(10, 38) == 100000000000000000000000000000000000000int,
        pow(10, 20) == 100000000000000000000int,
        pow(10, 9) == 1000000000int,
{
    reveal_with_fuel(pow, 39);
}

/// `m * 10^k / 10^sc`, rounded down.
fn scaled_down(m: u64, k: u32, sc: u32) -> (r: u128)
    requires
        k <= 9,
    ensures
        r == (m * pow(10, k as nat)) / pow(10, sc as nat),
        r <= m * pow(10, 9),
{
    proof {
        vstd::arithmetic::power::lemma_pow_positive(10, k as nat);
        vstd::arithmetic::power::lemma_pow_positive(10, sc as nat);
        vstd::arithmetic::power::lemma_pow_increases(10, k as nat, 9);
        lemma_pow10_38();
        assert(m * pow(10, k as nat) <= m * pow(10, 9)) by (nonlinear_arith)
            requires pow(10, k as nat) <= pow(10, 9), m >= 0;
    }
    if sc <= k {
        let p = pow10(k - sc);
        proof {
            vstd::arithmetic::power::lemma_pow_adds(10, (k - sc) as nat, sc as nat);
            vstd::arithmetic::power::lemma_pow_increases(10, (k - sc) as nat, 9);
            assert(m * p <= m * pow(10, 9)) by (nonlinear_arith)
                requires p <= pow(10, 9), m >= 0;
            assert(m * pow(10, k as nat) == pow(10, sc as nat) * (m * p)) by (nonlinear_arith)
                requires pow(10, k as nat) == p * pow(10, sc as nat);
            vstd::arithmetic::div_mod::lemma_div_multiples_vanish((m * p) as int, pow(10, sc as nat));
        }
        m as u128 * p
    } else {
        let e = sc - k;
        proof {
            vstd::arithmetic::power::lemma_pow_positive(10, e as nat);
            vstd::arithmetic::power::lemma_pow_adds(10, k as nat, e as nat);
            vstd::arithmetic::div_mod::lemma_div_denominator((m * pow(10, k as nat)) as int, pow(10, k as nat), pow(10, e as nat));
            assert(m * pow(10, k as nat) == pow(10, k as nat) * m) by (nonlinear_arith);
            vstd::arithmetic::div_mod::lemma_div_multiples_vanish(m as int, pow(10, k as nat));
            assert((m * pow(10, k as nat)) / pow(10, sc as nat) == (m as int) / pow(10, e as nat));
        }
        if e >= 20 {
            proof {
                vstd::arithmetic::power::lemma_pow_increases(10, 20, e as nat);
                vstd::arithmetic::div_mod::lemma_basic_div(m as int, pow(10, e as nat));
            }
            0
        } else {
            let p = pow10(e);
            proof {
                vstd::arithmetic::div_mod::lemma_div_is_ordered_by_denominator(m as int, 1, p as int);
                assert(m <= m * pow(10, 9)) by (nonlinear_arith) requires pow(10, 9) >= 1, m >= 0;
            }
            m as u128 / p
        }
    }
}

/// Relies on `std::time::Duration::new`: a duration of `secs` seconds and `nanos`
/// nanoseconds, which does not panic while `nanos` is below one second.
#[verifier::external_body]
fn make_duration(secs: u64, nanos: u32) -> std::time::Duration
    requires
        nanos < 1_000_000_000,
{
    std::time::Duration::new(secs, nanos)
}

impl TimeDesignation {
    /// The time as whole seconds and the nanoseconds beyond them, rounded down.
    pub fn seconds_and_nanos(&self) -> (r: (u64, u32))
        ensures
            r.1 < 1_000_000_000,
            r.0 * 1_000_000_000 + r.1 == time_nanos(*self),
    {
        let (m, k, sc) = match self {
            TimeDesignation::Seconds(d) => (d.mantissa, 9u32, d.scale),
            TimeDesignation::Milliseconds(d) => (d.mantissa, 6u32, d.scale),
        };
        let total = scaled_down(m, k, sc);
        proof {
            lemma_pow10_38();
            assert(total / 1_000_000_000 <= m) by (nonlinear_arith)
                requires total <= m * 1_000_000_000, m >= 0;
        }
        let secs = (total / 1_000_000_000) as u64;
        let nanos = (total % 1_000_000_000) as u32;
        (secs, nanos)
    }

    /// The time as a `Duration`: seconds as they are, milliseconds divided by 1000.
    pub fn duration(&self) -> std::time::Duration {
        let (secs, nanos) = self.seconds_and_nanos();
        make_duration(secs, nanos)
    }
}

/// Reading back the spelling of a parsed time gives the same time.
pub proof fn lemma_time_round_trip(s: Seq<char>, t: TimeDesignation)
    requires
        spec_parse_time(s) == Some(t),
    ensures
        spec_parse_time(time_chars(t)) == Some(t),
{
    match t {
        TimeDesignation::Seconds(d) => {
            lemma_decimal_round_trip(d);
            let f = time_chars(t);
            assert(f.take(f.len() - 1) =~= decimal_chars(d));
            assert(strip_plus(f) == f);
        },
        TimeDesignation::Milliseconds(d) => {
            lemma_decimal_round_trip(d);
            let f = time_chars(t);
            assert(f.take(f.len() - 2) =~= decimal_chars(d));
            assert(strip_plus(f) == f);
        },
    }
}

// ---------------------------------------------------------------- positive number

/// A non-negative number: an integer when written without a point, a decimal otherwise.
#[derive(Clone, Copy, Debug, PartialEq, Eq, Structural)]
pub enum PositiveNumber {
    FloatNumber(Decimal),
    RoundNumber(isize),
}

/// The grammar `"+"? number`: integer without a point, decimal with one; `-` never matches.
pub open spec fn spec_parse_positive(s: Seq<char>) -> Option<PositiveNumber> {
    let b = strip_plus(s);
    if index_of(b, '.') >= 0 {
        match spec_parse_decimal(b) {
            Some(d) => Some(PositiveNumber::FloatNumber(d)),
            None => None,
        }
    } else {
        match spec_parse_unsigned(b, isize::MAX as u64) {
            Some(n) => if b.len() > 0 && b[0] != '+' { Some(PositiveNumber::RoundNumber(n as isize)) } else { None },
            None => None,
        }
    }
}

pub open spec fn positive_chars(n: PositiveNumber) -> Seq<char> {
    match n {
        PositiveNumber::FloatNumber(d) => decimal_chars(d),
        PositiveNumber::RoundNumber(i) => if i >= 0 {
            nat_digits(i as nat)
        } else {
            seq!['-'] + nat_digits((-i) as nat)
        },
    }
}

pub fn parse_positive_chars(s: &Vec<char>) -> (r: Option<PositiveNumber>)
    ensures
        r == spec_parse_positive(s@),
{
    let b = strip_plus_vec(s);
    if crate::text::find_char(&b, '.').is_some() {
        match parse_decimal_chars(&b) {
            Some(d) => Some(PositiveNumber::FloatNumber(d)),
            None => None,
        }
    } else {
        match parse_unsigned_chars(&b, isize::MAX as u64) {
            Some(n) => if b.len() > 0 && b[0] != '+' { Some(PositiveNumber::RoundNumber(n as isize)) } else { None },
            None => None,
        }
    }
}

pub fn format_positive(n: &PositiveNumber) -> (r: Vec<char>)
    ensures
        r@ == positive_chars(*n),
{
    match n {
        PositiveNumber::FloatNumber(d) => format_decimal(d),
        PositiveNumber::RoundNumber(i) => {
            if *i >= 0 {
                format_unsigned(*i as u64)
            } else {
                let m: u64 = (-(*i as i128)) as u64;
                let mut v: Vec<char> = Vec::new();
                v.push('-');
                append_chars(&mut v, &format_unsigned(m));
                v
            }
        },
    }
}

impl PositiveNumber {
    /// Reads `s` as a non-negative number.
    pub fn from_str(s: &str) -> (r: Result<PositiveNumber, InvalidValue>)
        ensures
            parsed_as(r, spec_parse_positive(s@), Grammar::PositiveNumber, s@),
    {
        match parse_positive_chars(&chars_of(s)) {
            Some(v) => Ok(v),
            None => Err(invalid(Grammar::PositiveNumber, s)),
        }
    }

    /// The canonical spelling.
    pub fn to_string(&self) -> (r: String)
        ensures
            r@ == positive_chars(*self),
    {
        string_of(&format_positive(self))
    }
}

proof fn lemma_unsigned_round_trip(n: nat, max: u64)
    requires
        n <= max,
    ensures
        spec_parse_unsigned(nat_digits(n), max) == Some(n as u64),
        index_of(nat_digits(n), '.') < 0,
        nat_digits(n).len() > 0,
        is_digit(nat_digits(n)[0]),
{
    crate::numbers::lemma_nat_digits(n);
    let d = nat_digits(n);
    assert(is_digit(d[0]));
    assert forall|j: int| 0 <= j < d.len() implies d[j] != '.' by {
        assert(is_digit(d[j]));
    }
    crate::text::lemma_index_of_absent(d, '.');
}

/// Reading back the spelling of a parsed number gives the same number.
pub proof fn lemma_positive_round_trip(s: Seq<char>, n: PositiveNumber)
    requires
        spec_parse_positive(s) == Some(n),
    ensures
        spec_parse_positive(positive_chars(n)) == Some(n),
{
    let b = strip_plus(s);
    match n {
        PositiveNumber::FloatNumber(d) => {
            lemma_decimal_round_trip(d);
            let f = decimal_chars(d);
            assert(strip_plus(f) == f);
            if index_of(f, '.') < 0 {
                crate::text::lemma_index_of_absent(f, '.');
                crate::text::lemma_index_of_bounds(b, '.');
                assert(spec_parse_decimal(b) == Some(d));
                assert(d.scale > 0);
                assert(false);
            }
        },
        PositiveNumber::RoundNumber(i) => {
            assert(i >= 0);
            lemma_unsigned_round_trip(i as nat, isize::MAX as u64);
            let f = nat_digits(i as nat);
            assert(strip_plus(f) == f);
        },
    }
}

// ---------------------------------------------------------------- break strength

/// Lower-case form of a string, as `str::to_lowercase` computes it.
pub uninterp spec fn lower_of(s: Seq<char>) -> Seq<char>;

/// Relies on `str::to_lowercase`: the result depends on the characters alone, and a string
/// of lower-case ASCII letters and hyphens is left as it is.
#[verifier::external_body]
fn lowercase(s: &str) -> (r: String)
    ensures
        r@ == lower_of(s@),
        (forall|i: int| 0 <= i < s@.len() ==> ('a' <= #[trigger] s@[i] <= 'z' || s@[i] == '-'))
            ==> r@ == s@,
{
    s.to_lowercase()
}

impl Strength {
    /// Reads a break strength; letters compare without regard to case.
    pub fn from_str(s: &str) -> (r: Result<Strength, InvalidValue>)
        ensures
            parsed_as(r, spec_parse_strength(lower_of(s@)), Grammar::Strength, s@),
    {
        let lower = lowercase(s);
        match Strength::from_lowercase(lower.as_str()) {
            Some(v) => Ok(v),
            None => Err(invalid(Grammar::Strength, s)),
        }
    }

    /// Reads a break strength from a string already in lower case.
    pub fn from_lowercase(s: &str) -> (r: Option<Strength>)
        ensures
            r == spec_parse_strength(s@),
    {
        parse_strength_chars(&chars_of(s))
    }
}

// ---------------------------------------------------------------- pitch range

/// A pitch or pitch range: a named level, an absolute frequency, or a signed relative change.
#[derive(Clone, Copy, Debug, PartialEq, Eq)]
pub enum PitchRange {
    Strength(PitchStrength),
    Frequency(Decimal),
    RelativeChange((Decimal, Sign, Unit)),
}

pub open spec fn sign_of(c: char) -> Sign {
    if c == '-' { Sign::Minus } else { Sign::Plus }
}

/// A relative change `("+" | "-") number unit`, where `body` is the text before the unit.
pub open spec fn spec_relative(body: Seq<char>, unit: Unit) -> Option<PitchRange> {
    if body.len() > 0 && (body[0] == '+' || body[0] == '-') {
        match spec_parse_decimal(body.drop_first()) {
            Some(d) => Some(PitchRange::RelativeChange((d, sign_of(body[0]), unit))),
            None => None,
        }
    } else {
        None
    }
}

/// The grammar: a pitch label, `number "Hz"`, or `("+" | "-") number ("Hz" | "st" | "%")`.
pub open spec fn spec_parse_pitch_range(s: Seq<char>) -> Option<PitchRange> {
    if ends_with2(s, 'H', 'z') {
        let body = s.take(s.len() - 2);
        if body.len() > 0 && (body[0] == '+' || body[0] == '-') {
            spec_relative(body, Unit::Hz)
        } else {
            match spec_parse_decimal(body) {
                Some(d) => Some(PitchRange::Frequency(d)),
                None => None,
            }
        }
    } else if ends_with1(s, '%') {
        spec_relative(s.take(s.len() - 1), Unit::Percentage)
    } else if ends_with2(s, 's', 't') {
        spec_relative(s.take(s.len() - 2), Unit::St)
    } else {
        match spec_parse_pitch_strength(s) {
            Some(p) => Some(PitchRange::Strength(p)),
            None => None,
        }
    }
}

pub open spec fn pitch_range_chars(p: PitchRange) -> Seq<char> {
    match p {
        PitchRange::Strength(l) => pitch_strength_chars(l),
        PitchRange::Frequency(d) => decimal_chars(d) + seq!['H', 'z'],
        PitchRange::RelativeChange((d, sign, unit)) => seq![sign_char(sign)] + decimal_chars(d)
            + unit_chars(unit),
    }
}

fn parse_relative(body: &Vec<char>, unit: Unit) -> (r: Option<PitchRange>)
    ensures
        r == spec_relative(body@, unit),
{
    if body.len() > 0 && (body[0] == '+' || body[0] == '-') {
        let sign = if body[0] == '-' { Sign::Minus } else { Sign::Plus };
        match parse_decimal_chars(&drop_first_char(body)) {
            Some(d) => Some(PitchRange::RelativeChange((d, sign, unit))),
            None => None,
        }
    } else {
        None
    }
}

pub fn parse_pitch_range_chars(s: &Vec<char>) -> (r: Option<PitchRange>)
    ensures
        r == spec_parse_pitch_range(s@),
{
    if vec_ends_with2(s, 'H', 'z') {
        let body = drop_last_n(s, 2);
        if body.len() > 0 && (body[0] == '+' || body[0] == '-') {
            parse_relative(&body, Unit::Hz)
        } else {
            match parse_decimal_chars(&body) {
                Some(d) => Some(PitchRange::Frequency(d)),
                None => None,
            }
        }
    } else if vec_ends_with1(s, '%') {
        parse_relative(&drop_last_n(s, 1), Unit::Percentage)
    } else if vec_ends_with2(s, 's', 't') {
        parse_relative(&drop_last_n(s, 2), Unit::St)
    } else {
        match parse_pitch_strength_chars(s) {
            Some(p) => Some(PitchRange::Strength(p)),
            None => None,
        }
    }
}

pub fn format_pitch_range(p: &PitchRange) -> (r: Vec<char>)
    ensures
        r@ == pitch_range_chars(*p),
{
    match p {
        PitchRange::Strength(l) => chars_of(l.as_str()),
        PitchRange::Frequency(d) => {
            let mut v = format_decimal(d);
            v.push('H');
            v.push('z');
            assert(v@ =~= decimal_chars(*d) + seq!['H', 'z']);
            v
        },
        PitchRange::RelativeChange((d, sign, unit)) => {
            let mut v: Vec<char> = Vec::new();
            v.push(sign.to_char());
            append_chars(&mut v, &format_decimal(d));
            append_chars(&mut v, &unit.to_chars());
            assert(v@ =~= seq![sign_char(*sign)] + decimal_chars(*d) + unit_chars(*unit));
            v
        },
    }
}

impl PitchRange {
    /// Reads a pitch or pitch range such as `"x-high"`, `"120Hz"` or `"-2st"`.
    pub fn from_str(s: &str) -> (r: Result<PitchRange, InvalidValue>)
        ensures
            parsed_as(r, spec_parse_pitch_range(s@), Grammar::PitchRange, s@),
    {
        match parse_pitch_range_chars(&chars_of(s)) {
            Some(v) => Ok(v),
            None => Err(invalid(Grammar::PitchRange, s)),
        }
    }

    /// The canonical spelling.
    pub fn to_string(&self) -> (r: String)
        ensures
            r@ == pitch_range_chars(*self),
    {
        string_of(&format_pitch_range(self))
    }
}

proof fn lemma_pitch_labels(p: PitchStrength)
    ensures
        !ends_with2(pitch_strength_chars(p), 'H', 'z'),
        !ends_with1(pitch_strength_chars(p), '%'),
        !ends_with2(pitch_strength_chars(p), 's', 't'),
        pitch_strength_chars(p).len() > 0,
        !is_digit(pitch_strength_chars(p)[0]) && pitch_strength_chars(p)[0] != '(',
        forall|i: int| 0 <= i < pitch_strength_chars(p).len() ==> #[trigger] pitch_strength_chars(p)[i] != ',' && !crate::text::is_ws(pitch_strength_chars(p)[i]),
{
    reveal_strlit("x-low");
    reveal_strlit("low");
    reveal_strlit("medium");
    reveal_strlit("high");
    reveal_strlit("x-high");
    reveal_strlit("default");
}

proof fn lemma_frequency_round_trip(d: Decimal)
    ensures
        spec_parse_pitch_range(pitch_range_chars(PitchRange::Frequency(d))) == Some(PitchRange::Frequency(d)),
{
    lemma_decimal_round_trip(d);
    let f = pitch_range_chars(PitchRange::Frequency(d));
    assert(f.take(f.len() - 2) =~= decimal_chars(d));
    assert(ends_with2(f, 'H', 'z'));
}

proof fn lemma_relative_round_trip(d: Decimal, sign: Sign, unit: Unit)
    ensures
        spec_parse_pitch_range(pitch_range_chars(PitchRange::RelativeChange((d, sign, unit))))
            == Some(PitchRange::RelativeChange((d, sign, unit))),
{
    lemma_decimal_round_trip(d);
    let p = PitchRange::RelativeChange((d, sign, unit));
    let f = pitch_range_chars(p);
    let body = seq![sign_char(sign)] + decimal_chars(d);
    assert(body.drop_first() =~= decimal_chars(d));
    assert(sign_of(sign_char(sign)) == sign);
    assert(spec_relative(body, unit) == Some(p));
    match unit {
        Unit::Hz => {
            assert(f.take(f.len() - 2) =~= body);
            assert(ends_with2(f, 'H', 'z'));
        },
        Unit::St => {
            assert(f.take(f.len() - 2) =~= body);
            assert(!ends_with2(f, 'H', 'z') && !ends_with1(f, '%') && ends_with2(f, 's', 't'));
        },
        Unit::Percentage => {
            assert(f.take(f.len() - 1) =~= body);
            assert(!ends_with2(f, 'H', 'z') && ends_with1(f, '%'));
        },
    }
}

/// Reading back the spelling of a parsed pitch range gives the same value.
pub proof fn lemma_pitch_range_round_trip(s: Seq<char>, p: PitchRange)
    requires
        spec_parse_pitch_range(s) == Some(p),
    ensures
        spec_parse_pitch_range(pitch_range_chars(p)) == Some(p),
{
    match p {
        PitchRange::Strength(l) => {
            lemma_pitch_labels(l);
            lemma_pitch_strength_round_trip(l);
        },
        PitchRange::Frequency(d) => lemma_frequency_round_trip(d),
        PitchRange::RelativeChange((d, sign, unit)) => lemma_relative_round_trip(d, sign, unit),
    }
}

// ---------------------------------------------------------------- volume range

/// A volume: a named level or a change in decibels.
#[derive(Clone, Copy, Debug, PartialEq, Eq)]
pub enum VolumeRange {
    Strength(VolumeStrength),
    Decibel(Decibels),
}

/// A signed number of decibels.
#[derive(Clone, Copy, Debug, PartialEq, Eq, Structural)]
pub struct Decibels {
    pub sign: Sign,
    pub magnitude: Decimal,
}

/// The grammar `("+" | "-")? number "dB"`, as a sign and a magnitude.
pub open spec fn spec_parse_decibel(s: Seq<char>) -> Option<Decibels> {
    if ends_with2(s, 'd', 'B') {
        let body = s.take(s.len() - 2);
        if body.len() > 0 && (body[0] == '+' || body[0] == '-') {
            match spec_parse_decimal(body.drop_first()) {
                Some(d) => Some(Decibels { sign: sign_of(body[0]), magnitude: d }),
                None => None,
            }
        } else {
            match spec_parse_decimal(body) {
                Some(d) => Some(Decibels { sign: Sign::Plus, magnitude: d }),
                None => None,
            }
        }
    } else {
        None
    }
}

pub open spec fn decibel_chars(v: Decibels) -> Seq<char> {
    let sign = if v.sign is Minus { seq!['-'] } else { Seq::empty() };
    sign + decimal_chars(v.magnitude) + seq!['d', 'B']
}

/// Reads a decibel value such as `"-6dB"` or `"+1.5dB"`.
pub fn parse_decibel_chars(s: &Vec<char>) -> (r: Option<Decibels>)
    ensures
        r == spec_parse_decibel(s@),
{
    if vec_ends_with2(s, 'd', 'B') {
        let body = drop_last_n(s, 2);
        if body.len() > 0 && (body[0] == '+' || body[0] == '-') {
            let sign = if body[0] == '-' { Sign::Minus } else { Sign::Plus };
            match parse_decimal_chars(&drop_first_char(&body)) {
                Some(d) => Some(Decibels { sign, magnitude: d }),
                None => None,
            }
        } else {
            match parse_decimal_chars(&body) {
                Some(d) => Some(Decibels { sign: Sign::Plus, magnitude: d }),
                None => None,
            }
        }
    } else {
        None
    }
}

pub fn format_decibel(v: &Decibels) -> (r: Vec<char>)
    ensures
        r@ == decibel_chars(*v),
{
    let mut r: Vec<char> = Vec::new();
    if let Sign::Minus = v.sign {
        r.push('-');
    }
    append_chars(&mut r, &format_decimal(&v.magnitude));
    r.push('d');
    r.push('B');
    assert(r@ =~= decibel_chars(*v));
    r
}

/// Reads a decibel value such as `"-6dB"`.
pub fn parse_decibel(s: &str) -> (r: Result<Decibels, InvalidValue>)
    ensures
        parsed_as(r, spec_parse_decibel(s@), Grammar::Decibel, s@),
{
    match parse_decibel_chars(&chars_of(s)) {
        Some(v) => Ok(v),
        None => Err(invalid(Grammar::Decibel, s)),
    }
}

/// Reading back the spelling of a parsed decibel value gives the same value.
pub proof fn lemma_decibel_round_trip(s: Seq<char>, v: Decibels)
    requires
        spec_parse_decibel(s) == Some(v),
    ensures
        spec_parse_decibel(decibel_chars(v)) == Some(v),
{
    lemma_decimal_round_trip(v.magnitude);
    let f = decibel_chars(v);
    let body = f.take(f.len() - 2);
    if v.sign is Minus {
        assert(body =~= seq!['-'] + decimal_chars(v.magnitude));
        assert(body.drop_first() =~= decimal_chars(v.magnitude));
    } else {
        assert(body =~= decimal_chars(v.magnitude));
    }
}

pub open spec fn spec_parse_volume_range(s: Seq<char>) -> Option<VolumeRange> {
    if ends_with2(s, 'd', 'B') {
        match spec_parse_decibel(s) {
            Some(v) => Some(VolumeRange::Decibel(v)),
            None => None,
        }
    } else {
        match spec_parse_volume_strength(s) {
            Some(l) => Some(VolumeRange::Strength(l)),
            None => None,
        }
    }
}

pub open spec fn volume_range_chars(v: VolumeRange) -> Seq<char> {
    match v {
        VolumeRange::Strength(l) => volume_strength_chars(l),
        VolumeRange::Decibel(d) => decibel_chars(d),
    }
}

impl VolumeRange {
    /// Reads a volume such as `"loud"` or `"-6dB"`.
    pub fn from_str(s: &str) -> (r: Result<VolumeRange, InvalidValue>)
        ensures
            parsed_as(r, spec_parse_volume_range(s@), Grammar::VolumeRange, s@),
    {
        let cs = chars_of(s);
        let v = if vec_ends_with2(&cs, 'd', 'B') {
            match parse_decibel_chars(&cs) {
                Some(d) => Some(VolumeRange::Decibel(d)),
                None => None,
            }
        } else {
            match parse_volume_strength_chars(&cs) {
                Some(l) => Some(VolumeRange::Strength(l)),
                None => None,
            }
        };
        match v {
            Some(v) => Ok(v),
            None => Err(invalid(Grammar::VolumeRange, s)),
        }
    }

    pub fn format(&self) -> (r: Vec<char>)
        ensures
            r@ == volume_range_chars(*self),
    {
        match self {
            VolumeRange::Strength(l) => chars_of(l.as_str()),
            VolumeRange::Decibel(d) => format_decibel(d),
        }
    }

    /// The canonical spelling.
    pub fn to_string(&self) -> (r: String)
        ensures
            r@ == volume_range_chars(*self),
    {
        string_of(&self.format())
    }
}

/// Reading back the spelling of a parsed volume gives the same value.
pub proof fn lemma_volume_range_round_trip(s: Seq<char>, v: VolumeRange)
    requires
        spec_parse_volume_range(s) == Some(v),
    ensures
        spec_parse_volume_range(volume_range_chars(v)) == Some(v),
{
    match v {
        VolumeRange::Strength(l) => {
            lemma_volume_strength_round_trip(l);
            reveal_strlit("silent");
            reveal_strlit("x-soft");
            reveal_strlit("soft");
            reveal_strlit("medium");
            reveal_strlit("loud");
            reveal_strlit("x-loud");
            reveal_strlit("default");
        },
        VolumeRange::Decibel(d) => {
            lemma_decibel_round_trip(s, d);
        },
    }
}

// ---------------------------------------------------------------- rate range

/// A speaking rate: a named rate or a non-negative percentage of the default rate.
#[derive(Clone, Copy, Debug, PartialEq, Eq)]
pub enum RateRange {
    Strength(RateStrength),
    Percentage(PositiveNumber),
}

pub open spec fn spec_parse_rate_range(s: Seq<char>) -> Option<RateRange> {
    if ends_with1(s, '%') {
        match spec_parse_positive(s.take(s.len() - 1)) {
            Some(n) => Some(RateRange::Percentage(n)),
            None => None,
        }
    } else {
        match spec_parse_rate_strength(s) {
            Some(l) => Some(RateRange::Strength(l)),
            None => None,
        }
    }
}

pub open spec fn rate_range_chars(v: RateRange) -> Seq<char> {
    match v {
        RateRange::Strength(l) => rate_strength_chars(l),
        RateRange::Percentage(n) => positive_chars(n) + seq!['%'],
    }
}

impl RateRange {
    /// Reads a rate such as `"fast"` or `"120%"`; a negative percentage is refused.
    pub fn from_str(s: &str) -> (r: Result<RateRange, InvalidValue>)
        ensures
            parsed_as(r, spec_parse_rate_range(s@), Grammar::RateRange, s@),
    {
        let cs = chars_of(s);
        let v = if vec_ends_with1(&cs, '%') {
            match parse_positive_chars(&drop_last_n(&cs, 1)) {
                Some(n) => Some(RateRange::Percentage(n)),
                None => None,
            }
        } else {
            match parse_rate_strength_chars(&cs) {
                Some(l) => Some(RateRange::Strength(l)),
                None => None,
            }
        };
        match v {
            Some(v) => Ok(v),
            None => Err(invalid(Grammar::RateRange, s)),
        }
    }

    pub fn format(&self) -> (r: Vec<char>)
        ensures
            r@ == rate_range_chars(*self),
    {
        match self {
            RateRange::Strength(l) => chars_of(l.as_str()),
            RateRange::Percentage(n) => {
                let mut v = format_positive(n);
                v.push('%');
                v
            },
        }
    }

    /// The canonical spelling.
    pub fn to_string(&self) -> (r: String)
        ensures
            r@ == rate_range_chars(*self),
    {
        string_of(&self.format())
    }
}

/// Reading back the spelling of a parsed rate gives the same value.
pub proof fn lemma_rate_range_round_trip(s: Seq<char>, v: RateRange)
    requires
        spec_parse_rate_range(s) == Some(v),
    ensures
        spec_parse_rate_range(rate_range_chars(v)) == Some(v),
{
    match v {
        RateRange::Strength(l) => {
            lemma_rate_strength_round_trip(l);
            reveal_strlit("x-slow");
            reveal_strlit("slow");
            reveal_strlit("medium");
            reveal_strlit("fast");
            reveal_strlit("x-fast");
            reveal_strlit("default");
        },
        RateRange::Percentage(n) => {
            lemma_positive_round_trip(s.take(s.len() - 1), n);
            let f = rate_range_chars(v);
            assert(f.take(f.len() - 1) =~= positive_chars(n));
        },
    }
}

// ---------------------------------------------------------------- unsigned percentage

/// The grammar `"+"? number "%"`, the value as written.
pub open spec fn spec_parse_percentage(s: Seq<char>) -> Option<Decimal> {
    if ends_with1(s, '%') {
        spec_parse_decimal(strip_plus(s.take(s.len() - 1)))
    } else {
        None
    }
}

pub fn parse_percentage_chars(s: &Vec<char>) -> (r: Option<Decimal>)
    ensures
        r == spec_parse_percentage(s@),
{
    if vec_ends_with1(s, '%') {
        parse_decimal_chars(&strip_plus_vec(&drop_last_n(s, 1)))
    } else {
        None
    }
}

/// Reads an unsigned percentage such as `"110%"`, returning the number as written.
pub fn parse_unsigned_percentage(s: &str) -> (r: Result<Decimal, InvalidValue>)
    ensures
        parsed_as(r, spec_parse_percentage(s@), Grammar::Percentage, s@),
{
    match parse_percentage_chars(&chars_of(s)) {
        Some(v) => Ok(v),
        None => Err(invalid(Grammar::Percentage, s)),
    }
}

// ---------------------------------------------------------------- whitespace-separated lists

pub open spec fn flush(cur: Seq<char>) -> Seq<Seq<char>> {
    if cur.len() > 0 { seq![cur] } else { Seq::empty() }
}

/// Maximal runs of non-whitespace characters of `s`, after the pending run `cur`.
pub open spec fn tokens_from(s: Seq<char>, cur: Seq<char>) -> Seq<Seq<char>>
    decreases s.len(),
{
    if s.len() == 0 {
        flush(cur)
    } else if crate::text::is_ws(s[0]) {
        flush(cur) + tokens_from(s.drop_first(), Seq::empty())
    } else {
        tokens_from(s.drop_first(), cur.push(s[0]))
    }
}

/// The whitespace-separated tokens of `s`.
pub open spec fn ws_tokens(s: Seq<char>) -> Seq<Seq<char>> {
    tokens_from(s, Seq::empty())
}

pub open spec fn views(v: Seq<Vec<char>>) -> Seq<Seq<char>> {
    v.map_values(|x: Vec<char>| x@)
}

/// Splits `s` at runs of whitespace, dropping empty pieces.
pub fn split_whitespace(s: &Vec<char>) -> (r: Vec<Vec<char>>)
    ensures
        views(r@) == ws_tokens(s@),
{
    let mut out: Vec<Vec<char>> = Vec::new();
    let mut cur: Vec<char> = Vec::new();
    let mut i: usize = 0;
    assert(views(out@) =~= Seq::<Seq<char>>::empty());
    assert(s@.skip(0) =~= s@);
    assert(cur@ =~= Seq::<char>::empty());
    assert(views(out@) + tokens_from(s@.skip(0), cur@) =~= ws_tokens(s@));
    while i < s.len()
        invariant
            i <= s.len(),
            views(out@) + tokens_from(s@.skip(i as int), cur@) == ws_tokens(s@),
        decreases s.len() - i,
    {
        let c = s[i];
        let ghost rest = s@.skip(i as int);
        assert(rest.drop_first() =~= s@.skip(i + 1));
        if crate::text::is_whitespace(c) {
            if cur.len() > 0 {
                let ghost old_out = out@;
                out.push(cur);
                assert(views(out@) =~= views(old_out) + seq![cur@]);
            }
            cur = Vec::new();
            assert(views(out@) + tokens_from(s@.skip(i + 1), cur@) =~= ws_tokens(s@));
        } else {
            cur.push(c);
        }
        i += 1;
    }
    assert(s@.skip(i as int) =~= Seq::<char>::empty());
    if cur.len() > 0 {
        let ghost old_out = out@;
        out.push(cur);
        assert(views(out@) =~= views(old_out) + seq![cur@]);
    }
    assert(views(out@) =~= ws_tokens(s@));
    out
}

// ---------------------------------------------------------------- pitch contour

/// One target of a pitch contour: a position in percent of the duration and a pitch.
#[derive(Clone, Copy, Debug, PartialEq, Eq)]
pub enum ContourElement {
    Element((Decimal, PitchRange)),
}

/// The grammar `"(" number "%," pitch-range ")"`.
pub open spec fn spec_parse_contour_element(s: Seq<char>) -> Option<ContourElement> {
    if s.len() >= 2 && s[0] == '(' && s[s.len() - 1] == ')' {
        let inner = s.subrange(1, s.len() - 1);
        let k = index_of(inner, ',');
        if k < 0 {
            None
        } else {
            let pct = inner.take(k);
            if ends_with1(pct, '%') {
                match (spec_parse_decimal(pct.take(pct.len() - 1)), spec_parse_pitch_range(inner.skip(k + 1))) {
                    (Some(p), Some(r)) => Some(ContourElement::Element((p, r))),
                    _ => None,
                }
            } else {
                None
            }
        }
    } else {
        None
    }
}

pub open spec fn contour_element_chars(e: ContourElement) -> Seq<char> {
    match e {
        ContourElement::Element((p, r)) => seq!['('] + decimal_chars(p) + seq!['%', ','] + pitch_range_chars(r) + seq![')'],
    }
}

pub fn parse_contour_element_chars(s: &Vec<char>) -> (r: Option<ContourElement>)
    ensures
        r == spec_parse_contour_element(s@),
{
    if s.len() >= 2 && s[0] == '(' && s[s.len() - 1] == ')' {
        let inner = sub_chars(s, 1, s.len() - 1);
        match crate::text::find_char(&inner, ',') {
            None => None,
            Some(k) => {
                proof { crate::text::lemma_index_of_bounds(inner@, ','); }
                let pct = sub_chars(&inner, 0, k);
                assert(pct@ =~= inner@.take(k as int));
                if vec_ends_with1(&pct, '%') {
                    let rest = sub_chars(&inner, k + 1, inner.len());
                    assert(rest@ =~= inner@.skip(k + 1));
                    match (parse_decimal_chars(&drop_last_n(&pct, 1)), parse_pitch_range_chars(&rest)) {
                        (Some(p), Some(r)) => Some(ContourElement::Element((p, r))),
                        _ => None,
                    }
                } else {
                    None
                }
            },
        }
    } else {
        None
    }
}

pub fn format_contour_element(e: &ContourElement) -> (r: Vec<char>)
    ensures
        r@ == contour_element_chars(*e),
{
    match e {
        ContourElement::Element((p, range)) => {
            let mut v: Vec<char> = Vec::new();
            v.push('(');
            append_chars(&mut v, &format_decimal(p));
            v.push('%');
            v.push(',');
            append_chars(&mut v, &format_pitch_range(range));
            v.push(')');
            assert(v@ =~= contour_element_chars(*e));
            v
        },
    }
}

impl ContourElement {
    /// Reads one contour target such as `"(20%,+30Hz)"`.
    pub fn from_str(s: &str) -> (r: Result<ContourElement, InvalidValue>)
        ensures
            parsed_as(r, spec_parse_contour_element(s@), Grammar::PitchContour, s@),
    {
        match parse_contour_element_chars(&chars_of(s)) {
            Some(v) => Ok(v),
            None => Err(invalid(Grammar::PitchContour, s)),
        }
    }

    /// The canonical spelling.
    pub fn to_string(&self) -> (r: String)
        ensures
            r@ == contour_element_chars(*self),
    {
        string_of(&format_contour_element(self))
    }
}

/// A pitch contour: a sequence of pitch targets.
#[derive(Clone, Debug, PartialEq, Eq)]
pub enum PitchContour {
    Elements(Vec<ContourElement>),
}

/// A whitespace-separated list of contour targets; blank text is the empty contour.
pub open spec fn spec_parse_contour(s: Seq<char>) -> Option<Seq<ContourElement>> {
    let ts = ws_tokens(s);
    if forall|i: int| 0 <= i < ts.len() ==> (#[trigger] spec_parse_contour_element(ts[i])) is Some {
        Some(ts.map_values(|t: Seq<char>| spec_parse_contour_element(t)->0))
    } else {
        None
    }
}

/// The targets joined by single spaces.
pub open spec fn contour_chars(els: Seq<ContourElement>) -> Seq<char>
    decreases els.len(),
{
    if els.len() == 0 {
        Seq::empty()
    } else if els.len() == 1 {
        contour_element_chars(els[0])
    } else {
        contour_chars(els.drop_last()) + seq![' '] + contour_element_chars(els.last())
    }
}

impl PitchContour {
    pub open spec fn view_elements(&self) -> Seq<ContourElement> {
        match self {
            PitchContour::Elements(v) => v@,
        }
    }

    /// Reads a pitch contour such as `"(0%,+20Hz) (50%,-10Hz)"`.
    pub fn from_str(s: &str) -> (r: Result<PitchContour, InvalidValue>)
        ensures
            match r {
                Ok(c) => spec_parse_contour(s@) == Some(c.view_elements()),
                Err(e) => spec_parse_contour(s@) is None && e.expected == Grammar::PitchContour && e.actual@ == s@,
            },
    {
        let tokens = split_whitespace(&chars_of(s));
        let ghost ts = ws_tokens(s@);
        let mut els: Vec<ContourElement> = Vec::new();
        let mut i: usize = 0;
        while i < tokens.len()
            invariant
                views(tokens@) == ts,
                ts == ws_tokens(s@),
                i <= tokens.len(),
                forall|j: int| 0 <= j < i ==> (#[trigger] spec_parse_contour_element(ts[j])) is Some,
                els@ == ts.take(i as int).map_values(|t: Seq<char>| spec_parse_contour_element(t)->0),
            decreases tokens.len() - i,
        {
            assert(ts[i as int] == tokens@[i as int]@);
            match parse_contour_element_chars(&tokens[i]) {
                Some(e) => {
                    els.push(e);
                },
                None => {
                    return Err(invalid(Grammar::PitchContour, s));
                },
            }
            i += 1;
            assert(els@ =~= ts.take(i as int).map_values(|t: Seq<char>| spec_parse_contour_element(t)->0));
        }
        assert(ts.take(i as int) =~= ts);
        Ok(PitchContour::Elements(els))
    }

    /// The canonical spelling: the targets joined by single spaces.
    pub fn format(&self) -> (r: Vec<char>)
        ensures
            r@ == contour_chars(self.view_elements()),
    {
        match self {
            PitchContour::Elements(els) => {
                let mut v: Vec<char> = Vec::new();
                let mut i: usize = 0;
                while i < els.len()
                    invariant
                        i <= els.len(),
                        v@ == contour_chars(els@.take(i as int)),
                    decreases els.len() - i,
                {
                    if i > 0 {
                        v.push(' ');
                    }
                    append_chars(&mut v, &format_contour_element(&els[i]));
                    i += 1;
                    assert(els@.take(i as int).drop_last() =~= els@.take(i - 1));
                    if i == 1 {
                        assert(v@ =~= contour_chars(els@.take(i as int)));
                    }
                }
                assert(els@.take(i as int) =~= els@);
                v
            },
        }
    }

    /// The canonical spelling.
    pub fn to_string(&self) -> (r: String)
        ensures
            r@ == contour_chars(self.view_elements()),
    {
        string_of(&self.format())
    }
}

// ---------------------------------------------------------------- language and accent

/// A language a voice speaks, optionally with an accent: `language` or `language:accent`.
#[derive(Clone, Debug, PartialEq, Eq, Hash)]
pub struct LanguageAccentPair {
    pub lang: String,
    pub accent: Option<String>,
}

pub open spec fn opt_view(o: Option<String>) -> Option<Seq<char>> {
    match o {
        Some(s) => Some(s@),
        None => None,
    }
}

/// The grammar `language (":" accent)?`; empty text, `und` and `zxx` are refused.
pub open spec fn spec_parse_language_accent(s: Seq<char>) -> Option<(Seq<char>, Option<Seq<char>>)> {
    if s.len() == 0 || s == "und"@ || s == "zxx"@ {
        None
    } else {
        let k = index_of(s, ':');
        if k < 0 {
            Some((s, None))
        } else if index_of(s.skip(k + 1), ':') >= 0 {
            None
        } else {
            Some((s.take(k), Some(s.skip(k + 1))))
        }
    }
}

pub open spec fn language_accent_chars(lang: Seq<char>, accent: Option<Seq<char>>) -> Seq<char> {
    match accent {
        Some(a) => lang + seq![':'] + a,
        None => lang,
    }
}

impl LanguageAccentPair {
    pub open spec fn view(&self) -> (Seq<char>, Option<Seq<char>>) {
        (self.lang@, opt_view(self.accent))
    }

    /// Reads `language` or `language:accent`.
    pub fn from_str(s: &str) -> (r: Result<LanguageAccentPair, InvalidValue>)
        ensures
            match r {
                Ok(v) => spec_parse_language_accent(s@) == Some(v.view()),
                Err(e) => spec_parse_language_accent(s@) is None && e.expected == Grammar::LanguageAccentPair && e.actual@ == s@,
            },
    {
        let cs = chars_of(s);
        if cs.len() == 0 || crate::text::chars_eq(&cs, "und") || crate::text::chars_eq(&cs, "zxx") {
            return Err(invalid(Grammar::LanguageAccentPair, s));
        }
        match crate::text::find_char(&cs, ':') {
            None => Ok(LanguageAccentPair { lang: String::from_str(s), accent: None }),
            Some(k) => {
                proof { crate::text::lemma_index_of_bounds(cs@, ':'); }
                let rest = sub_chars(&cs, k + 1, cs.len());
                assert(rest@ =~= cs@.skip(k + 1));
                if crate::text::find_char(&rest, ':').is_some() {
                    return Err(invalid(Grammar::LanguageAccentPair, s));
                }
                let lang = sub_chars(&cs, 0, k);
                assert(lang@ =~= cs@.take(k as int));
                Ok(LanguageAccentPair { lang: string_of(&lang), accent: Some(string_of(&rest)) })
            },
        }
    }

    /// The spelling `language` or `language:accent`.
    pub fn to_string(&self) -> (r: String)
        ensures
            r@ == language_accent_chars(self.lang@, opt_view(self.accent)),
    {
        let mut v = chars_of(self.lang.as_str());
        match &self.accent {
            Some(a) => {
                v.push(':');
                append_str(&mut v, a.as_str());
            },
            None => {},
        }
        string_of(&v)
    }
}

/// Reading back the spelling of a parsed language-accent pair gives the same pair: the
/// spelling is the text that was read.
pub proof fn lemma_language_accent_round_trip(s: Seq<char>, lang: Seq<char>, accent: Option<Seq<char>>)
    requires
        spec_parse_language_accent(s) == Some((lang, accent)),
    ensures
        language_accent_chars(lang, accent) == s,
        spec_parse_language_accent(language_accent_chars(lang, accent)) == Some((lang, accent)),
{
    let k = index_of(s, ':');
    crate::text::lemma_index_of_bounds(s, ':');
    if k >= 0 {
        assert(s =~= s.take(k) + seq![':'] + s.skip(k + 1));
    }
}

// ---------------------------------------------------------------- phoneme alphabet

/// The alphabet of a pronunciation: IPA or another named alphabet.
#[derive(Clone, Debug, PartialEq, Eq, Hash)]
pub enum PhonemeAlphabet {
    Ipa,
    Other(String),
}

impl PhonemeAlphabet {
    pub open spec fn view(&self) -> Seq<char> {
        match self {
            PhonemeAlphabet::Ipa => "ipa"@,
            PhonemeAlphabet::Other(s) => s@,
        }
    }

    /// Reads an alphabet name; `"ipa"` is IPA, any other name is kept as written.
    pub fn from_str(s: &str) -> (r: PhonemeAlphabet)
        ensures
            r.view() == s@,
            (r is Ipa) == (s@ == "ipa"@),
    {
        if crate::text::chars_eq(&chars_of(s), "ipa") {
            PhonemeAlphabet::Ipa
        } else {
            PhonemeAlphabet::Other(String::from_str(s))
        }
    }

    /// The alphabet's name.
    pub fn to_string(&self) -> (r: String)
        ensures
            r@ == self.view(),
    {
        match self {
            PhonemeAlphabet::Ipa => String::from_str("ipa"),
            PhonemeAlphabet::Other(s) => s.clone(),
        }
    }
}

// ---------------------------------------------------------------- contour round trips

proof fn lemma_pitch_range_chars_plain(p: PitchRange)
    ensures
        pitch_range_chars(p).len() > 0,
        forall|i: int| 0 <= i < pitch_range_chars(p).len() ==> #[trigger] pitch_range_chars(p)[i] != ',' && !crate::text::is_ws(pitch_range_chars(p)[i]),
{
    match p {
        PitchRange::Strength(l) => {
            lemma_pitch_labels(l);
        },
        PitchRange::Frequency(d) => {
            lemma_decimal_round_trip(d);
            let f = pitch_range_chars(p);
            assert forall|i: int| 0 <= i < f.len() implies #[trigger] f[i] != ',' && !crate::text::is_ws(f[i]) by {
                if i < decimal_chars(d).len() {
                    assert(f[i] == decimal_chars(d)[i]);
                }
            }
        },
        PitchRange::RelativeChange((d, sign, unit)) => {
            lemma_decimal_round_trip(d);
            let f = pitch_range_chars(p);
            assert forall|i: int| 0 <= i < f.len() implies #[trigger] f[i] != ',' && !crate::text::is_ws(f[i]) by {
                if 1 <= i < 1 + decimal_chars(d).len() {
                    assert(f[i] == decimal_chars(d)[i - 1]);
                }
            }
        },
    }
}

proof fn lemma_contour_element_chars_plain(e: ContourElement)
    ensures
        contour_element_chars(e).len() > 0,
        forall|i: int| 0 <= i < contour_element_chars(e).len() ==> !crate::text::is_ws(#[trigger] contour_element_chars(e)[i]),
{
    match e {
        ContourElement::Element((p, r)) => {
            lemma_decimal_round_trip(p);
            lemma_pitch_range_chars_plain(r);
            let f = contour_element_chars(e);
            let dl = decimal_chars(p).len();
            assert forall|i: int| 0 <= i < f.len() implies !crate::text::is_ws(#[trigger] f[i]) by {
                if 1 <= i < 1 + dl {
                    assert(f[i] == decimal_chars(p)[i - 1]);
                } else if 3 + dl <= i < f.len() - 1 {
                    assert(f[i] == pitch_range_chars(r)[i - 3 - dl]);
                }
            }
        },
    }
}

/// Reading back the spelling of a parsed contour target gives the same target.
#[verifier::rlimit(40)]
pub proof fn lemma_contour_element_round_trip(s: Seq<char>, e: ContourElement)
    requires
        spec_parse_contour_element(s) == Some(e),
    ensures
        spec_parse_contour_element(contour_element_chars(e)) == Some(e),
{
    match e {
        ContourElement::Element((p, r)) => {
            let inner0 = s.subrange(1, s.len() - 1);
            let k0 = index_of(inner0, ',');
            crate::text::lemma_index_of_bounds(inner0, ',');
            lemma_pitch_range_round_trip(inner0.skip(k0 + 1), r);
            lemma_decimal_round_trip(p);
            lemma_pitch_range_chars_plain(r);
            let f = contour_element_chars(e);
            let dec = decimal_chars(p);
            let dl = dec.len() as int;
            let inner = f.subrange(1, f.len() - 1);
            assert(inner =~= dec + seq!['%', ','] + pitch_range_chars(r));
            assert forall|j: int| 0 <= j < dl + 1 implies inner[j] != ',' by {
                if j < dl {
                    assert(inner[j] == dec[j]);
                }
            }
            crate::text::lemma_index_of_found(inner, ',', dl + 1);
            let pct = inner.take(dl + 1);
            assert(pct =~= dec + seq!['%']);
            assert(pct.take(pct.len() - 1) =~= dec);
            assert(inner.skip(dl + 2) =~= pitch_range_chars(r));
            assert(f[0] == '(' && f[f.len() - 1] == ')');
            assert(index_of(inner, ',') == dl + 1);
            assert(ends_with1(pct, '%'));
            assert(spec_parse_decimal(pct.take(pct.len() - 1)) == Some(p));
            assert(spec_parse_pitch_range(inner.skip(index_of(inner, ',') + 1)) == Some(r));
        },
    }
}

proof fn lemma_tokens_word(w: Seq<char>, rest: Seq<char>, cur: Seq<char>)
    requires
        forall|i: int| 0 <= i < w.len() ==> !crate::text::is_ws(#[trigger] w[i]),
    ensures
        tokens_from(w + rest, cur) == tokens_from(rest, cur + w),
    decreases w.len(),
{
    if w.len() > 0 {
        assert((w + rest).drop_first() =~= w.drop_first() + rest);
        assert(cur.push(w[0]) + w.drop_first() =~= cur + w);
        lemma_tokens_word(w.drop_first(), rest, cur.push(w[0]));
    } else {
        assert(w + rest =~= rest);
        assert(cur + w =~= cur);
    }
}

proof fn lemma_contour_tokens(els: Seq<ContourElement>, rest: Seq<char>)
    requires
        els.len() > 0,
    ensures
        tokens_from(contour_chars(els) + rest, Seq::empty())
            == els.drop_last().map_values(|e: ContourElement| contour_element_chars(e))
                + tokens_from(rest, contour_element_chars(els.last())),
    decreases els.len(),
{
    let last = contour_element_chars(els.last());
    lemma_contour_element_chars_plain(els.last());
    if els.len() == 1 {
        lemma_tokens_word(last, rest, Seq::empty());
        assert(Seq::<char>::empty() + last =~= last);
        assert(contour_chars(els) == last);
        assert(els.drop_last().map_values(|e: ContourElement| contour_element_chars(e)) =~= Seq::<Seq<char>>::empty());
        assert(Seq::<Seq<char>>::empty() + tokens_from(rest, last) =~= tokens_from(rest, last));
    } else {
        let init = els.drop_last();
        let tail = seq![' '] + last + rest;
        assert(contour_chars(els) + rest =~= contour_chars(init) + tail);
        lemma_contour_tokens(init, tail);
        let prev = contour_element_chars(init.last());
        lemma_contour_element_chars_plain(init.last());
        assert(tail.drop_first() =~= last + rest);
        assert(tokens_from(tail, prev) == flush(prev) + tokens_from(last + rest, Seq::empty()));
        lemma_tokens_word(last, rest, Seq::empty());
        assert(Seq::<char>::empty() + last =~= last);
        assert(init.drop_last().map_values(|e: ContourElement| contour_element_chars(e)) + seq![prev]
            =~= init.map_values(|e: ContourElement| contour_element_chars(e)));
    }
}

/// Reading back the spelling of a parsed pitch contour gives the same contour.
pub proof fn lemma_contour_round_trip(s: Seq<char>, els: Seq<ContourElement>)
    requires
        spec_parse_contour(s) == Some(els),
    ensures
        spec_parse_contour(contour_chars(els)) == Some(els),
{
    let ts = ws_tokens(s);
    assert(els =~= ts.map_values(|t: Seq<char>| spec_parse_contour_element(t)->0));
    if els.len() == 0 {
        assert(contour_chars(els) =~= Seq::<char>::empty());
        assert(ws_tokens(contour_chars(els)) =~= Seq::<Seq<char>>::empty());
        assert(Seq::<ContourElement>::empty() =~= ws_tokens(contour_chars(els)).map_values(|t: Seq<char>| spec_parse_contour_element(t)->0));
    } else {
        lemma_contour_tokens(els, Seq::empty());
        assert(contour_chars(els) + Seq::<char>::empty() =~= contour_chars(els));
        let last = contour_element_chars(els.last());
        lemma_contour_element_chars_plain(els.last());
        let nts = ws_tokens(contour_chars(els));
        assert(nts =~= els.map_values(|e: ContourElement| contour_element_chars(e)));
        assert forall|i: int| 0 <= i < nts.len() implies spec_parse_contour_element(#[trigger] nts[i]) == Some(els[i]) by {
            assert(spec_parse_contour_element(ts[i]) is Some);
            lemma_contour_element_round_trip(ts[i], els[i]);
        }
        assert(els =~= nts.map_values(|t: Seq<char>| spec_parse_contour_element(t)->0));
    }
}

} // verus!
