//! Character-level helpers: whitespace, digits, and conversion between `String` and `Vec<char>`.
use vstd::prelude::*;

verus! {

/// Unicode `White_Space` characters, the set that `char::is_whitespace` tests.
pub open spec fn is_ws(c: char) -> bool {
    ('\u{9}' <= c && c <= '\u{d}') || c == ' ' || c == '\u{85}' || c == '\u{a0}'
        || c == '\u{1680}' || ('\u{2000}' <= c && c <= '\u{200a}') || c == '\u{2028}'
        || c == '\u{2029}' || c == '\u{202f}' || c == '\u{205f}' || c == '\u{3000}'
}

/// Whether `c` is Unicode whitespace.
pub fn is_whitespace(c: char) -> (r: bool)
    ensures
        r == is_ws(c),
{
    ('\u{9}' <= c && c <= '\u{d}') || c == ' ' || c == '\u{85}' || c == '\u{a0}'
        || c == '\u{1680}' || ('\u{2000}' <= c && c <= '\u{200a}') || c == '\u{2028}'
        || c == '\u{2029}' || c == '\u{202f}' || c == '\u{205f}' || c == '\u{3000}'
}

pub open spec fn is_digit(c: char) -> bool {
    '0' <= c && c <= '9'
}

pub open spec fn all_digits(s: Seq<char>) -> bool {
    forall|i: int| 0 <= i < s.len() ==> is_digit(#[trigger] s[i])
}

pub open spec fn digit_value(c: char) -> nat {
    ((c as u32) - ('0' as u32)) as nat
}

/// The number that a string of decimal digits denotes.
pub open spec fn digits_value(s: Seq<char>) -> nat
    decreases s.len(),
{
    if s.len() == 0 {
        0
    } else {
        digits_value(s.drop_last()) * 10 + digit_value(s.last())
    }
}

/// Index of the first occurrence of `c` in `s`, or -1.
pub open spec fn index_of(s: Seq<char>, c: char) -> int
    decreases s.len(),
{
    if s.len() == 0 {
        -1
    } else if s[0] == c {
        0
    } else {
        let r = index_of(s.drop_first(), c);
        if r < 0 {
            -1
        } else {
            r + 1
        }
    }
}

pub proof fn lemma_index_of_found(s: Seq<char>, c: char, k: int)
    requires
        0 <= k < s.len(),
        s[k] == c,
        forall|j: int| 0 <= j < k ==> s[j] != c,
    ensures
        index_of(s, c) == k,
    decreases k,
{
    if k > 0 {
        lemma_index_of_found(s.drop_first(), c, k - 1);
    }
}

pub proof fn lemma_index_of_absent(s: Seq<char>, c: char)
    requires
        forall|j: int| 0 <= j < s.len() ==> s[j] != c,
    ensures
        index_of(s, c) == -1,
    decreases s.len(),
{
    if s.len() > 0 {
        lemma_index_of_absent(s.drop_first(), c);
    }
}

pub proof fn lemma_index_of_bounds(s: Seq<char>, c: char)
    ensures
        -1 <= index_of(s, c) < s.len(),
        index_of(s, c) >= 0 ==> s[index_of(s, c)] == c,
        forall|j: int| 0 <= j < s.len() && (index_of(s, c) < 0 || j < index_of(s, c)) ==> s[j] != c,
    decreases s.len(),
{
    if s.len() > 0 {
        lemma_index_of_bounds(s.drop_first(), c);
        assert forall|j: int| 0 <= j < s.len() && (index_of(s, c) < 0 || j < index_of(s, c)) implies s[j] != c by {
            if j > 0 {
                assert(s.drop_first()[j - 1] == s[j]);
            }
        }
    }
}

/// First index of `c` in `s`, if any.
pub fn find_char(s: &Vec<char>, c: char) -> (r: Option<usize>)
    ensures
        match r {
            Some(k) => index_of(s@, c) == k as int,
            None => index_of(s@, c) == -1,
        },
{
    let mut i: usize = 0;
    while i < s.len()
        invariant
            i <= s.len(),
            forall|j: int| 0 <= j < i ==> s@[j] != c,
        decreases s.len() - i,
    {
        if s[i] == c {
            proof { lemma_index_of_found(s@, c, i as int); }
            return Some(i);
        }
        i += 1;
    }
    proof { lemma_index_of_absent(s@, c); }
    None
}

/// The characters of `s`.
pub fn chars_of(s: &str) -> (r: Vec<char>)
    ensures
        r@ == s@,
{
    let n = s.unicode_len();
    let mut v: Vec<char> = Vec::new();
    let mut i: usize = 0;
    while i < n
        invariant
            n == s@.len(),
            i <= n,
            v@ == s@.take(i as int),
        decreases n - i,
    {
        v.push(s.get_char(i));
        i += 1;
        assert(v@ =~= s@.take(i as int));
    }
    assert(v@ =~= s@);
    v
}

/// Relies on `String::push`: appends one character.
#[verifier::external_body]
fn push_char(s: &mut String, c: char)
    ensures
        final(s)@ == old(s)@.push(c),
{
    s.push(c)
}

/// A string holding exactly the characters of `v`.
pub fn string_of(v: &Vec<char>) -> (r: String)
    ensures
        r@ == v@,
{
    let mut s = String::new();
    let mut i: usize = 0;
    while i < v.len()
        invariant
            i <= v.len(),
            s@ == v@.take(i as int),
        decreases v.len() - i,
    {
        push_char(&mut s, v[i]);
        i += 1;
        assert(s@ =~= v@.take(i as int));
    }
    assert(s@ =~= v@);
    s
}

/// Appends all characters of `src` to `dst`.
pub fn append_chars(dst: &mut Vec<char>, src: &Vec<char>)
    ensures
        final(dst)@ == old(dst)@ + src@,
{
    let mut i: usize = 0;
    while i < src.len()
        invariant
            i <= src.len(),
            dst@ == old(dst)@ + src@.take(i as int),
        decreases src.len() - i,
    {
        dst.push(src[i]);
        i += 1;
        assert(dst@ =~= old(dst)@ + src@.take(i as int));
    }
    assert(src@.take(src.len() as int) =~= src@);
}

/// Appends all characters of `src` to `dst`.
pub fn append_str(dst: &mut Vec<char>, src: &str)
    ensures
        final(dst)@ == old(dst)@ + src@,
{
    let v = chars_of(src);
    append_chars(dst, &v);
}

/// Whether two character sequences are equal.
pub fn chars_eq(a: &Vec<char>, b: &str) -> (r: bool)
    ensures
        r == (a@ == b@),
{
    let bv = chars_of(b);
    if a.len() != bv.len() {
        return false;
    }
    let mut i: usize = 0;
    while i < a.len()
        invariant
            a@.len() == bv@.len(),
            bv@ == b@,
            i <= a.len(),
            forall|j: int| 0 <= j < i ==> a@[j] == bv@[j],
        decreases a.len() - i,
    {
        if a[i] != bv[i] {
            return false;
        }
        i += 1;
    }
    assert(a@ =~= bv@);
    true
}

// ---------------------------------------------------------------- whitespace normalisation

/// Number of whitespace characters at the start of `s`.
pub open spec fn leading_ws(s: Seq<char>) -> nat
    decreases s.len(),
{
    if s.len() == 0 {
        0
    } else if is_ws(s[0]) {
        1 + leading_ws(s.drop_first())
    } else {
        0
    }
}

/// Number of whitespace characters at the end of `s`.
pub open spec fn trailing_ws(s: Seq<char>) -> nat
    decreases s.len(),
{
    if s.len() == 0 {
        0
    } else if is_ws(s.last()) {
        1 + trailing_ws(s.drop_last())
    } else {
        0
    }
}

/// `s` without leading and trailing whitespace.
pub open spec fn trim(s: Seq<char>) -> Seq<char> {
    if leading_ws(s) >= s.len() {
        Seq::empty()
    } else {
        s.subrange(leading_ws(s) as int, s.len() - trailing_ws(s))
    }
}

/// What a pending whitespace run becomes: one space if it held a line break, else itself.
pub open spec fn flush_run(run: Seq<char>, newline: bool) -> Seq<char> {
    if newline { seq![' '] } else { run }
}

/// `s` with every whitespace run that holds a line break replaced by one space, after the
/// pending run `run`.
pub open spec fn collapse_from(s: Seq<char>, run: Seq<char>, newline: bool) -> Seq<char>
    decreases s.len(),
{
    if s.len() == 0 {
        flush_run(run, newline)
    } else if is_ws(s[0]) {
        collapse_from(s.drop_first(), run.push(s[0]), newline || s[0] == '\n')
    } else {
        flush_run(run, newline) + seq![s[0]] + collapse_from(s.drop_first(), Seq::empty(), false)
    }
}

/// `s` with line breaks, and the whitespace around them, collapsed to single spaces.
pub open spec fn collapse_lines(s: Seq<char>) -> Seq<char> {
    collapse_from(s, Seq::empty(), false)
}

/// What a run of text `t` adds to a buffer `b`: blank text adds one space when `b` does not
/// already end in whitespace (and is not empty); other text is trimmed, its line breaks
/// collapsed, with one space before it when it started with whitespace and `b` did not end in
/// whitespace, and one after it when it ended with whitespace.
pub open spec fn text_piece(b: Seq<char>, t: Seq<char>) -> Seq<char> {
    let ends_ws = b.len() > 0 && is_ws(b.last());
    let tt = trim(t);
    if tt.len() == 0 {
        if b.len() > 0 && !ends_ws { seq![' '] } else { Seq::empty() }
    } else {
        (if !ends_ws && is_ws(t[0]) { seq![' '] } else { Seq::empty() }) + collapse_lines(tt)
            + (if is_ws(t.last()) { seq![' '] } else { Seq::empty() })
    }
}

proof fn lemma_leading_ws(s: Seq<char>, i: int)
    requires
        0 <= i <= s.len(),
        forall|j: int| 0 <= j < i ==> is_ws(s[j]),
        i == s.len() || !is_ws(s[i]),
    ensures
        leading_ws(s) == i,
    decreases i,
{
    if i > 0 {
        lemma_leading_ws(s.drop_first(), i - 1);
    }
}

proof fn lemma_trailing_ws(s: Seq<char>, i: int)
    requires
        0 <= i <= s.len(),
        forall|j: int| s.len() - i <= j < s.len() ==> is_ws(s[j]),
        i == s.len() || !is_ws(s[s.len() - i - 1]),
    ensures
        trailing_ws(s) == i,
    decreases i,
{
    if i > 0 {
        lemma_trailing_ws(s.drop_last(), i - 1);
    }
}

/// `s` without leading and trailing whitespace.
pub fn trim_chars(s: &Vec<char>) -> (r: Vec<char>)
    ensures
        r@ == trim(s@),
{
    let mut a: usize = 0;
    while a < s.len() && is_whitespace(s[a])
        invariant
            a <= s.len(),
            forall|j: int| 0 <= j < a ==> is_ws(s@[j]),
        decreases s.len() - a,
    {
        a += 1;
    }
    proof { lemma_leading_ws(s@, a as int); }
    if a >= s.len() {
        return Vec::new();
    }
    let mut k: usize = 0;
    while k < s.len() && is_whitespace(s[s.len() - 1 - k])
        invariant
            k <= s.len(),
            forall|j: int| s.len() - k <= j < s.len() ==> is_ws(s@[j]),
        decreases s.len() - k,
    {
        k += 1;
    }
    proof { lemma_trailing_ws(s@, k as int); }
    assert(!is_ws(s@[a as int]));
    assert(a < s.len() - k);
    let mut r: Vec<char> = Vec::new();
    let mut i = a;
    while i < s.len() - k
        invariant
            a <= i <= s.len() - k,
            r@ == s@.subrange(a as int, i as int),
        decreases s.len() - k - i,
    {
        r.push(s[i]);
        i += 1;
        assert(r@ =~= s@.subrange(a as int, i as int));
    }
    r
}

/// `s` with line breaks, and the whitespace around them, collapsed to single spaces.
pub fn collapse_line_breaks(s: &Vec<char>) -> (r: Vec<char>)
    ensures
        r@ == collapse_lines(s@),
{
    let mut out: Vec<char> = Vec::new();
    let mut run: Vec<char> = Vec::new();
    let mut newline = false;
    let mut i: usize = 0;
    assert(s@.skip(0) =~= s@);
    while i < s.len()
        invariant
            i <= s.len(),
            out@ + collapse_from(s@.skip(i as int), run@, newline) == collapse_lines(s@),
        decreases s.len() - i,
    {
        let c = s[i];
        assert(s@.skip(i as int).drop_first() =~= s@.skip(i + 1));
        if is_whitespace(c) {
            run.push(c);
            newline = newline || c == '\n';
        } else {
            let ghost before = out@;
            if newline {
                out.push(' ');
            } else {
                append_chars(&mut out, &run);
            }
            out.push(c);
            assert(out@ =~= before + flush_run(run@, newline) + seq![c]);
            run = Vec::new();
            newline = false;
            assert(out@ + collapse_from(s@.skip(i + 1), run@, newline) =~= collapse_lines(s@));
        }
        i += 1;
    }
    let ghost before = out@;
    if newline {
        out.push(' ');
    } else {
        append_chars(&mut out, &run);
    }
    assert(s@.skip(i as int) =~= Seq::<char>::empty());
    assert(out@ =~= collapse_lines(s@));
    out
}

/// Appends the text run `t` to the buffer `b`, normalising whitespace as `text_piece` says.
pub fn push_text(b: &mut Vec<char>, t: &Vec<char>)
    ensures
        final(b)@ == old(b)@ + text_piece(old(b)@, t@),
{
    let ends_ws = b.len() > 0 && is_whitespace(b[b.len() - 1]);
    let tt = trim_chars(t);
    let ghost b0 = b@;
    if tt.len() == 0 {
        if b.len() > 0 && !ends_ws {
            b.push(' ');
        }
        assert(b@ =~= b0 + text_piece(b0, t@));
    } else {
        assert(t.len() > 0);
        if !ends_ws && is_whitespace(t[0]) {
            b.push(' ');
        }
        let c = collapse_line_breaks(&tt);
        append_chars(b, &c);
        if is_whitespace(t[t.len() - 1]) {
            b.push(' ');
        }
        assert(b@ =~= b0 + text_piece(b0, t@));
    }
}

proof fn lemma_collapse_no_newline(s: Seq<char>, run: Seq<char>, newline: bool)
    requires
        forall|i: int| 0 <= i < run.len() && run[i] == '\n' ==> newline,
    ensures
        forall|i: int| 0 <= i < collapse_from(s, run, newline).len() ==> #[trigger] collapse_from(s, run, newline)[i] != '\n',
    decreases s.len(),
{
    if s.len() == 0 {
        assert(collapse_from(s, run, newline) == flush_run(run, newline));
        assert forall|i: int| 0 <= i < flush_run(run, newline).len() implies #[trigger] flush_run(run, newline)[i] != '\n' by {
            if !newline {
                assert(flush_run(run, newline)[i] == run[i]);
            }
        }
    } else if is_ws(s[0]) {
        let r2 = run.push(s[0]);
        assert forall|i: int| 0 <= i < r2.len() && r2[i] == '\n' implies newline || s[0] == '\n' by {
            if i < run.len() {
                assert(r2[i] == run[i]);
            }
        }
        lemma_collapse_no_newline(s.drop_first(), r2, newline || s[0] == '\n');
        assert(collapse_from(s, run, newline) == collapse_from(s.drop_first(), r2, newline || s[0] == '\n'));
    } else {
        lemma_collapse_no_newline(s.drop_first(), Seq::empty(), false);
        let head = flush_run(run, newline) + seq![s[0]];
        let tail = collapse_from(s.drop_first(), Seq::empty(), false);
        assert(collapse_from(s, run, newline) == head + tail);
        assert(s[0] != '\n');
        assert forall|i: int| 0 <= i < (head + tail).len() implies #[trigger] (head + tail)[i] != '\n' by {
            if i >= head.len() {
                assert((head + tail)[i] == tail[i - head.len()]);
            } else if i < flush_run(run, newline).len() {
                assert((head + tail)[i] == flush_run(run, newline)[i]);
            }
        }
    }
}

proof fn lemma_collapse_last(s: Seq<char>, run: Seq<char>, newline: bool)
    requires
        s.len() > 0,
        !is_ws(s.last()),
    ensures
        collapse_from(s, run, newline).len() > 0,
        collapse_from(s, run, newline).last() == s.last(),
    decreases s.len(),
{
    if s.len() == 1 {
        assert(s.drop_first() =~= Seq::<char>::empty());
        assert(s[0] == s.last());
        let c = flush_run(run, newline) + seq![s[0]] + collapse_from(s.drop_first(), Seq::empty(), false);
        assert(collapse_from(s.drop_first(), Seq::empty(), false) == flush_run(Seq::empty(), false));
        assert(c =~= flush_run(run, newline) + seq![s[0]]);
        assert(collapse_from(s, run, newline) == c);
    } else if is_ws(s[0]) {
        lemma_collapse_last(s.drop_first(), run.push(s[0]), newline || s[0] == '\n');
        assert(s.drop_first().last() == s.last());
        assert(collapse_from(s, run, newline) == collapse_from(s.drop_first(), run.push(s[0]), newline || s[0] == '\n'));
    } else {
        lemma_collapse_last(s.drop_first(), Seq::empty(), false);
        assert(s.drop_first().last() == s.last());
        let tail = collapse_from(s.drop_first(), Seq::empty(), false);
        assert(collapse_from(s, run, newline) == flush_run(run, newline) + seq![s[0]] + tail);
    }
}

proof fn lemma_leading_ws_stops(s: Seq<char>)
    ensures
        leading_ws(s) <= s.len(),
        leading_ws(s) < s.len() ==> !is_ws(s[leading_ws(s) as int]),
        forall|j: int| 0 <= j < leading_ws(s) ==> is_ws(#[trigger] s[j]),
    decreases s.len(),
{
    if s.len() > 0 && is_ws(s[0]) {
        lemma_leading_ws_stops(s.drop_first());
        assert forall|j: int| 0 <= j < leading_ws(s) implies is_ws(#[trigger] s[j]) by {
            if j > 0 {
                assert(s[j] == s.drop_first()[j - 1]);
            }
        }
    }
}

proof fn lemma_trailing_ws_stops(s: Seq<char>)
    ensures
        trailing_ws(s) <= s.len(),
        trailing_ws(s) < s.len() ==> !is_ws(s[s.len() - trailing_ws(s) - 1]),
        forall|j: int| s.len() - trailing_ws(s) <= j < s.len() ==> is_ws(#[trigger] s[j]),
    decreases s.len(),
{
    if s.len() > 0 && is_ws(s.last()) {
        lemma_trailing_ws_stops(s.drop_last());
        assert forall|j: int| s.len() - trailing_ws(s) <= j < s.len() implies is_ws(#[trigger] s[j]) by {
            if j < s.len() - 1 {
                assert(s[j] == s.drop_last()[j]);
            }
        }
    }
}

/// A run of text adds no line breaks to the document's text, and at most one whitespace
/// character at each of its edges: the lines of the run are joined by single spaces.
pub proof fn lemma_text_piece_shape(b: Seq<char>, t: Seq<char>)
    ensures
        forall|i: int| 0 <= i < text_piece(b, t).len() ==> #[trigger] text_piece(b, t)[i] != '\n',
        text_piece(b, t).len() >= 2 ==> !(is_ws(text_piece(b, t)[0]) && is_ws(text_piece(b, t)[1])),
        text_piece(b, t).len() >= 2 ==> !(is_ws(text_piece(b, t).last())
            && is_ws(text_piece(b, t)[text_piece(b, t).len() - 2])),
{
    let p = text_piece(b, t);
    let tt = trim(t);
    if tt.len() > 0 {
        lemma_leading_ws_stops(t);
        lemma_trailing_ws_stops(t);
        let a = leading_ws(t) as int;
        let z = t.len() - trailing_ws(t);
        assert(a < z) by {
            if z <= a {
                assert(is_ws(t[a]));
            }
        }
        assert(!is_ws(tt[0]));
        assert(tt.last() == t[z - 1]);
        let c = collapse_lines(tt);
        lemma_collapse_no_newline(tt, Seq::empty(), false);
        lemma_collapse_last(tt, Seq::empty(), false);
        assert(c[0] == tt[0]);
        let pre: Seq<char> = if b.len() > 0 && is_ws(b.last()) || !is_ws(t[0]) { Seq::empty() } else { seq![' '] };
        let post: Seq<char> = if is_ws(t.last()) { seq![' '] } else { Seq::empty() };
        assert(p =~= pre + c + post);
        assert forall|i: int| 0 <= i < p.len() implies #[trigger] p[i] != '\n' by {
            if i >= pre.len() && i < pre.len() + c.len() {
                assert(p[i] == c[i - pre.len()]);
            }
        }
        if p.len() >= 2 {
            assert(p[pre.len() as int] == c[0]);
            assert(p[p.len() - 1 - post.len()] == c.last());
        }
    }
}

proof fn lemma_collapse_plain(s: Seq<char>, run: Seq<char>)
    requires
        forall|i: int| 0 <= i < s.len() ==> s[i] != '\n',
    ensures
        collapse_from(s, run, false) == run + s,
    decreases s.len(),
{
    if s.len() == 0 {
        assert(run + s =~= run);
    } else if is_ws(s[0]) {
        lemma_collapse_plain(s.drop_first(), run.push(s[0]));
        assert(run.push(s[0]) + s.drop_first() =~= run + s);
    } else {
        lemma_collapse_plain(s.drop_first(), Seq::empty());
        assert(Seq::<char>::empty() + s.drop_first() =~= s.drop_first());
        assert(run + seq![s[0]] + s.drop_first() =~= run + s);
    }
}

/// Normalising a run that is already normalised changes nothing: what a run of text adds to
/// a buffer, read again after the same buffer, adds the same.
pub proof fn lemma_text_piece_idempotent(b: Seq<char>, t: Seq<char>)
    ensures
        text_piece(b, text_piece(b, t)) == text_piece(b, t),
{
    let p = text_piece(b, t);
    let tt = trim(t);
    if tt.len() == 0 {
        if p.len() > 0 {
            assert(p =~= seq![' ']);
            lemma_leading_ws(p, 1);
        } else {
            lemma_leading_ws(p, 0);
        }
    } else {
        lemma_text_piece_shape(b, t);
        lemma_leading_ws_stops(t);
        lemma_trailing_ws_stops(t);
        let c = collapse_lines(tt);
        let z = t.len() - trailing_ws(t);
        let a = leading_ws(t) as int;
        assert(a < z) by {
            if z <= a {
                assert(is_ws(t[a]));
            }
        }
        assert(!is_ws(tt[0]));
        assert(tt.last() == t[z - 1]);
        lemma_collapse_no_newline(tt, Seq::empty(), false);
        lemma_collapse_last(tt, Seq::empty(), false);
        let pre: Seq<char> = if b.len() > 0 && is_ws(b.last()) || !is_ws(t[0]) { Seq::empty() } else { seq![' '] };
        let post: Seq<char> = if is_ws(t.last()) { seq![' '] } else { Seq::empty() };
        assert(p =~= pre + c + post);
        assert(c[0] == tt[0]);
        assert forall|j: int| 0 <= j < pre.len() implies is_ws(p[j]) by {}
        assert(p[pre.len() as int] == c[0]);
        lemma_leading_ws(p, pre.len() as int);
        assert(p[p.len() - post.len() - 1] == c.last());
        lemma_trailing_ws(p, post.len() as int);
        assert(trim(p) =~= c);
        lemma_collapse_plain(c, Seq::empty());
        assert(Seq::<char>::empty() + c =~= c);
        assert(collapse_lines(c) == c);
    }
}

} // verus!
