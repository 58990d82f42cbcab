//! Character-level text operations on `&str`, each specified over the
//! string's view as a sequence of `char`s.
use vstd::prelude::*;
use vstd::utf8::is_ascii_chars;

verus! {

// ---------------------------------------------------------------------------
// Specifications
// ---------------------------------------------------------------------------

/// Whether `pat` occurs in `s` as a contiguous block.
pub open spec fn occurs_in(s: Seq<char>, pat: Seq<char>) -> bool {
    exists|i: int|
        0 <= i && i + pat.len() <= s.len() && #[trigger] s.subrange(i, i + pat.len()) == pat
}

/// `s` with every leading copy of the non-empty `pat` removed, as
/// `str::trim_start_matches` does.
pub open spec fn strip_prefixes(s: Seq<char>, pat: Seq<char>) -> Seq<char>
    decreases s.len(),
{
    if pat.len() > 0 && pat.is_prefix_of(s) {
        strip_prefixes(s.skip(pat.len() as int), pat)
    } else {
        s
    }
}

/// The pieces of `s` between occurrences of `sep`, as `str::split` with a
/// `char` pattern yields them: there is always at least one piece.
pub open spec fn split_spec(s: Seq<char>, sep: char) -> Seq<Seq<char>>
    decreases s.len(),
{
    if s.len() == 0 {
        seq![Seq::<char>::empty()]
    } else {
        let r = split_spec(s.drop_last(), sep);
        if s.last() == sep {
            r.push(Seq::<char>::empty())
        } else {
            r.update(r.len() - 1, r[r.len() - 1].push(s.last()))
        }
    }
}

/// The Unicode `White_Space` property.
pub open spec fn white_space(c: char) -> bool {
    let u = c as u32;
    ||| 0x9 <= u <= 0xd
    ||| u == 0x20
    ||| u == 0x85
    ||| u == 0xa0
    ||| u == 0x1680
    ||| 0x2000 <= u <= 0x200a
    ||| u == 0x2028
    ||| u == 0x2029
    ||| u == 0x202f
    ||| u == 0x205f
    ||| u == 0x3000
}

/// `s` without its leading white space.
pub open spec fn trim_start_spec(s: Seq<char>) -> Seq<char>
    decreases s.len(),
{
    if s.len() > 0 && white_space(s[0]) {
        trim_start_spec(s.drop_first())
    } else {
        s
    }
}

/// `s` without its trailing white space.
pub open spec fn trim_end_spec(s: Seq<char>) -> Seq<char>
    decreases s.len(),
{
    if s.len() > 0 && white_space(s.last()) {
        trim_end_spec(s.drop_last())
    } else {
        s
    }
}

/// `s` without leading and trailing white space, as `str::trim` returns it.
pub open spec fn trim_spec(s: Seq<char>) -> Seq<char> {
    trim_end_spec(trim_start_spec(s))
}

/// The decimal digit for `d` in `0..10`.
pub open spec fn digit_char(d: nat) -> char {
    if d == 0 {
        '0'
    } else if d == 1 {
        '1'
    } else if d == 2 {
        '2'
    } else if d == 3 {
        '3'
    } else if d == 4 {
        '4'
    } else if d == 5 {
        '5'
    } else if d == 6 {
        '6'
    } else if d == 7 {
        '7'
    } else if d == 8 {
        '8'
    } else {
        '9'
    }
}

/// Decimal digits of `n`, most significant first, without leading zeros.
pub open spec fn nat_decimal(n: nat) -> Seq<char>
    decreases n,
{
    if n < 10 {
        seq![digit_char(n)]
    } else {
        nat_decimal(n / 10).push(digit_char(n % 10))
    }
}

/// Decimal text of `n`: a minus sign for a negative number, then the digits.
pub open spec fn int_decimal(n: int) -> Seq<char> {
    if n < 0 {
        seq!['-'] + nat_decimal((-n) as nat)
    } else {
        nat_decimal(n as nat)
    }
}

/// ASCII upper case of one character; other characters are unchanged.
pub open spec fn ascii_upper_char(c: char) -> char {
    if 'a' <= c && c <= 'z' {
        ((c as u32) - 32) as char
    } else {
        c
    }
}

/// ASCII upper case of each character of `s`.
pub open spec fn ascii_upper(s: Seq<char>) -> Seq<char> {
    s.map_values(|c: char| ascii_upper_char(c))
}

/// The text that `str::to_uppercase` returns for `s` (full Unicode case mapping).
pub uninterp spec fn str_to_uppercase(s: Seq<char>) -> Seq<char>;

// ---------------------------------------------------------------------------
// Calls into std whose result is stated
// ---------------------------------------------------------------------------

/// Calls `char::is_whitespace`, which std documents as the Unicode
/// `White_Space` property; `white_space` lists that property's code points.
#[verifier::external_body]
pub(crate) fn is_white_space(c: char) -> (b: bool)
    ensures
        b == white_space(c),
{
    c.is_whitespace()
}

/// Formats `n` with `ToString` (the `Display` of `i64`): its decimal text.
#[verifier::external_body]
pub(crate) fn decimal_text(n: i64) -> (s: String)
    ensures
        s@ == int_decimal(n as int),
{
    n.to_string()
}

/// Calls `str::to_uppercase`. Its result is named; std maps ASCII input
/// letter by letter to ASCII upper case (the function's ASCII fast path),
/// which is the one fact stated beyond the name.
#[verifier::external_body]
pub(crate) fn to_upper_text(s: &str) -> (r: String)
    ensures
        r@ == str_to_uppercase(s@),
        is_ascii_chars(s@) ==> r@ == ascii_upper(s@),
{
    s.to_uppercase()
}

// ---------------------------------------------------------------------------
// Verified operations
// ---------------------------------------------------------------------------

/// The characters of `s`, in order.
pub fn chars_of(s: &str) -> (v: Vec<char>)
    ensures
        v@ == s@,
{
    let n = s.unicode_len();
    let mut v: Vec<char> = Vec::new();
    let mut i: usize = 0;
    while i < n
        invariant
            n == s@.len(),
            i <= n,
            v@ == s@.subrange(0, i as int),
        decreases n - i,
    {
        v.push(s.get_char(i));
        i = i + 1;
    }
    v
}

/// Whether `pat` occurs in `s` at character position `at`.
fn matches_at(s: &Vec<char>, pat: &Vec<char>, at: usize) -> (b: bool)
    requires
        at + pat@.len() <= s@.len(),
    ensures
        b == (s@.subrange(at as int, at + pat@.len()) == pat@),
{
    let mut k: usize = 0;
    while k < pat.len()
        invariant
            at + pat@.len() <= s@.len(),
            k <= pat@.len(),
            forall|j: int| 0 <= j < k ==> s@[at + j] == pat@[j],
        decreases pat@.len() - k,
    {
        assert(s@.len() == s.len());
        if s[at + k] != pat[k] {
            assert(s@.subrange(at as int, at + pat@.len())[k as int] != pat@[k as int]);
            return false;
        }
        k = k + 1;
    }
    assert(s@.subrange(at as int, at + pat@.len()) =~= pat@);
    true
}

/// Whether the two texts are equal.
pub fn same_text(a: &str, b: &str) -> (r: bool)
    ensures
        r == (a@ == b@),
{
    let va = chars_of(a);
    let vb = chars_of(b);
    if va.len() != vb.len() {
        return false;
    }
    let r = matches_at(&va, &vb, 0);
    assert(va@.subrange(0, vb@.len() as int) =~= va@);
    r
}

/// Whether `s` begins with `prefix`.
pub fn has_prefix(s: &str, prefix: &str) -> (r: bool)
    ensures
        r == prefix@.is_prefix_of(s@),
{
    let vs = chars_of(s);
    let vp = chars_of(prefix);
    if vp.len() > vs.len() {
        return false;
    }
    matches_at(&vs, &vp, 0)
}

/// Whether `pat` occurs anywhere in `s`.
pub fn occurs(s: &str, pat: &str) -> (r: bool)
    ensures
        r == occurs_in(s@, pat@),
{
    let vs = chars_of(s);
    let vp = chars_of(pat);
    if vp.len() > vs.len() {
        return false;
    }
    if vp.len() == 0 {
        assert(s@.subrange(0int, 0int + pat@.len()) =~= pat@);
        return true;
    }
    let last = vs.len() - vp.len();
    let mut i: usize = 0;
    while i <= last
        invariant
            vs@ == s@,
            vp@ == pat@,
            vp@.len() >= 1,
            last == vs@.len() - vp@.len(),
            last < vs.len(),
            i <= last + 1,
            forall|j: int| 0 <= j < i ==> #[trigger] s@.subrange(j, j + pat@.len()) != pat@,
        decreases last + 1 - i,
    {
        if matches_at(&vs, &vp, i) {
            return true;
        }
        i = i + 1;
    }
    false
}

/// `s` with every leading copy of `pat` removed (`str::trim_start_matches`);
/// an empty `pat` leaves `s` as it is.
pub fn trim_start_matches<'a>(s: &'a str, pat: &str) -> (r: &'a str)
    ensures
        r@ == strip_prefixes(s@, pat@),
{
    let vs = chars_of(s);
    let vp = chars_of(pat);
    let n = vs.len();
    let m = vp.len();
    if m == 0 {
        return s;
    }
    let mut i: usize = 0;
    assert(s@.skip(0) =~= s@);
    while m <= n - i && matches_at(&vs, &vp, i)
        invariant
            vs@ == s@,
            vp@ == pat@,
            n == s@.len(),
            m == pat@.len(),
            m > 0,
            i <= n,
            strip_prefixes(s@, pat@) == strip_prefixes(s@.skip(i as int), pat@),
        decreases n - i,
    {
        assert(pat@.is_prefix_of(s@.skip(i as int))) by {
            assert(s@.skip(i as int).subrange(0, m as int) =~= s@.subrange(i as int, i + m));
        }
        assert(s@.skip(i as int).skip(m as int) =~= s@.skip(i + m));
        i = i + m;
    }
    proof {
        let t = s@.skip(i as int);
        if i + m <= n {
            assert(t.subrange(0, m as int) =~= s@.subrange(i as int, i + m));
        }
        assert(!(pat@.is_prefix_of(t)));
    }
    let r = s.substring_char(i, n);
    assert(r@ =~= s@.skip(i as int));
    r
}

/// Lemma: splitting always yields at least one piece.
pub proof fn lemma_split_nonempty(s: Seq<char>, sep: char)
    ensures
        split_spec(s, sep).len() >= 1,
    decreases s.len(),
{
    if s.len() > 0 {
        lemma_split_nonempty(s.drop_last(), sep);
    }
}

/// The pieces of `s` between occurrences of `sep` (`str::split`).
pub fn split_on(s: &str, sep: char) -> (pieces: Vec<String>)
    ensures
        pieces.deep_view() == split_spec(s@, sep),
{
    let vs = chars_of(s);
    let n = vs.len();
    let mut pieces: Vec<String> = Vec::new();
    let mut start: usize = 0;
    let mut i: usize = 0;
    assert(s@.take(0) =~= Seq::<char>::empty());
    assert(pieces.deep_view().push(s@.subrange(0, 0)) =~= seq![Seq::<char>::empty()]);
    while i < n
        invariant
            vs@ == s@,
            n == s@.len(),
            start <= i <= n,
            split_spec(s@.take(i as int), sep) == pieces.deep_view().push(
                s@.subrange(start as int, i as int),
            ),
        decreases n - i,
    {
        let ghost prev = s@.take(i as int);
        assert(s@.take(i + 1).drop_last() =~= prev);
        assert(s@.take(i + 1).last() == s@[i as int]);
        proof {
            lemma_split_nonempty(prev, sep);
        }
        if vs[i] == sep {
            let piece = s.substring_char(start, i).to_owned();
            let ghost before = pieces.deep_view();
            pieces.push(piece);
            assert(pieces.deep_view() =~= before.push(s@.subrange(start as int, i as int)));
            start = i + 1;
            assert(s@.subrange(start as int, i + 1) =~= Seq::<char>::empty());
        } else {
            assert(s@.subrange(start as int, i + 1) =~= s@.subrange(start as int, i as int).push(
                s@[i as int],
            ));
            assert(split_spec(s@.take(i + 1), sep) =~= pieces.deep_view().push(
                s@.subrange(start as int, i + 1),
            ));
        }
        i = i + 1;
    }
    let piece = s.substring_char(start, n).to_owned();
    let ghost before = pieces.deep_view();
    pieces.push(piece);
    assert(pieces.deep_view() =~= before.push(s@.subrange(start as int, n as int)));
    assert(s@.take(n as int) =~= s@);
    pieces
}

/// `s` without leading and trailing white space (`str::trim`).
pub fn trim<'a>(s: &'a str) -> (r: &'a str)
    ensures
        r@ == trim_spec(s@),
{
    let vs = chars_of(s);
    let n = vs.len();
    let mut i: usize = 0;
    assert(s@.skip(0) =~= s@);
    while i < n && is_white_space(vs[i])
        invariant
            vs@ == s@,
            n == s@.len(),
            i <= n,
            trim_start_spec(s@) == trim_start_spec(s@.skip(i as int)),
        decreases n - i,
    {
        assert(s@.skip(i as int).drop_first() =~= s@.skip(i + 1));
        i = i + 1;
    }
    assert(trim_start_spec(s@) == s@.skip(i as int)) by {
        if i == n {
            assert(s@.skip(i as int).len() == 0);
        } else {
            assert(s@.skip(i as int)[0] == s@[i as int]);
        }
    }
    let mut j: usize = n;
    while j > i && is_white_space(vs[j - 1])
        invariant
            vs@ == s@,
            n == s@.len(),
            i <= j <= n,
            trim_end_spec(s@.subrange(i as int, n as int)) == trim_end_spec(
                s@.subrange(i as int, j as int),
            ),
        decreases j,
    {
        assert(s@.subrange(i as int, j as int).drop_last() =~= s@.subrange(i as int, j - 1));
        j = j - 1;
    }
    assert(s@.skip(i as int) =~= s@.subrange(i as int, n as int));
    assert(trim_end_spec(s@.subrange(i as int, j as int)) == s@.subrange(i as int, j as int));
    s.substring_char(i, j)
}

} // verus!
