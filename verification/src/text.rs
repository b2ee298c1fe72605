//! Character-level helpers on strings viewed as `Seq<char>`: Unicode
//! whitespace, ASCII lower-casing, trimming, and decimal rendering.

use vstd::prelude::*;
use vstd::string::*;

verus! {

/// `String::push` appends one character to the string; nothing else changes.
pub assume_specification[ String::push ](s: &mut String, ch: char)
    ensures
        final(s)@ == old(s)@.push(ch),
;

/// Unicode `White_Space`, the set `char::is_whitespace` tests.
pub open spec fn is_ws(c: char) -> bool {
    let u = c as u32;
    ||| 0x09 <= u <= 0x0D
    ||| u == 0x20
    ||| u == 0x85
    ||| u == 0xA0
    ||| u == 0x1680
    ||| 0x2000 <= u <= 0x200A
    ||| u == 0x2028
    ||| u == 0x2029
    ||| u == 0x202F
    ||| u == 0x205F
    ||| u == 0x3000
}

pub(crate) fn is_whitespace(c: char) -> (b: bool)
    ensures
        b == is_ws(c),
{
    let u = c as u32;
    (0x09 <= u && u <= 0x0D) || u == 0x20 || u == 0x85 || u == 0xA0 || u == 0x1680 || (0x2000 <= u
        && u <= 0x200A) || u == 0x2028 || u == 0x2029 || u == 0x202F || u == 0x205F || u == 0x3000
}

/// ASCII upper-case letters to lower case; every other character unchanged.
pub open spec fn ascii_lower(c: char) -> char {
    if 'A' <= c <= 'Z' {
        ((c as u32) + 32) as char
    } else {
        c
    }
}

pub(crate) fn to_ascii_lower(c: char) -> (l: char)
    ensures
        l == ascii_lower(c),
{
    if 'A' <= c && c <= 'Z' {
        let b: u8 = (c as u32 + 32) as u8;
        b as char
    } else {
        c
    }
}

/// `s` with its leading whitespace removed.
pub open spec fn trim_start(s: Seq<char>) -> Seq<char>
    decreases s.len(),
{
    if s.len() > 0 && is_ws(s[0]) {
        trim_start(s.drop_first())
    } else {
        s
    }
}

/// `s` with its trailing whitespace removed.
pub open spec fn trim_end(s: Seq<char>) -> Seq<char>
    decreases s.len(),
{
    if s.len() > 0 && is_ws(s.last()) {
        trim_end(s.drop_last())
    } else {
        s
    }
}

/// `s` with leading and trailing whitespace removed, as `str::trim` does.
pub open spec fn trim(s: Seq<char>) -> Seq<char> {
    trim_end(trim_start(s))
}

/// `s` with ASCII letters lower-cased, as `str::to_ascii_lowercase` does.
pub open spec fn lower(s: Seq<char>) -> Seq<char> {
    s.map_values(|c: char| ascii_lower(c))
}

/// The characters of `s`.
pub(crate) fn chars_of(s: &str) -> (v: Vec<char>)
    ensures
        v@ == s@,
{
    let n = s.unicode_len();
    let mut v: Vec<char> = Vec::new();
    let mut i: usize = 0;
    while i < n
        invariant
            n == s@.len(),
            i <= n,
            v@ == s@.subrange(0, i as int),
        decreases n - i,
    {
        v.push(s.get_char(i));
        i = i + 1;
    }
    v
}

/// The characters of `s` from `from` up to `to`.
pub(crate) fn slice_chars(s: &Vec<char>, from: usize, to: usize) -> (v: Vec<char>)
    requires
        from <= to <= s@.len(),
    ensures
        v@ == s@.subrange(from as int, to as int),
{
    let mut v: Vec<char> = Vec::new();
    let mut i: usize = from;
    while i < to
        invariant
            from <= i <= to <= s@.len(),
            v@ == s@.subrange(from as int, i as int),
        decreases to - i,
    {
        v.push(s[i]);
        i = i + 1;
    }
    v
}

/// `s` with leading and trailing whitespace removed.
pub(crate) fn trim_chars(s: &Vec<char>) -> (t: Vec<char>)
    ensures
        t@ == trim(s@),
{
    let n = s.len();
    let mut a: usize = 0;
    assert(s@.subrange(0, n as int) =~= s@);
    while a < n && is_whitespace(s[a])
        invariant
            n == s@.len(),
            a <= n,
            trim_start(s@) == trim_start(s@.subrange(a as int, n as int)),
        decreases n - a,
    {
        assert(s@.subrange(a as int, n as int).drop_first() =~= s@.subrange(a as int + 1, n as int));
        a = a + 1;
    }
    assert(trim_start(s@) == s@.subrange(a as int, n as int));
    let mut b: usize = n;
    while b > a && is_whitespace(s[b - 1])
        invariant
            n == s@.len(),
            a <= b <= n,
            trim(s@) == trim_end(s@.subrange(a as int, b as int)),
        decreases b - a,
    {
        assert(s@.subrange(a as int, b as int).drop_last() =~= s@.subrange(a as int, b as int - 1));
        b = b - 1;
    }
    slice_chars(s, a, b)
}

/// `s` with ASCII letters lower-cased.
pub(crate) fn lower_chars(s: &Vec<char>) -> (l: Vec<char>)
    ensures
        l@ == lower(s@),
{
    let mut l: Vec<char> = Vec::new();
    let mut i: usize = 0;
    while i < s.len()
        invariant
            i <= s@.len(),
            l@ == lower(s@.subrange(0, i as int)),
        decreases s@.len() - i,
    {
        let c = to_ascii_lower(s[i]);
        proof {
            assert(lower(s@.subrange(0, i as int + 1)) =~= lower(s@.subrange(0, i as int)).push(c));
        }
        l.push(c);
        i = i + 1;
    }
    assert(s@.subrange(0, i as int) =~= s@);
    l
}

/// A string holding the characters of `s`.
pub(crate) fn string_of(s: &Vec<char>) -> (r: String)
    ensures
        r@ == s@,
{
    let mut r = String::new();
    let mut i: usize = 0;
    while i < s.len()
        invariant
            i <= s@.len(),
            r@ == s@.subrange(0, i as int),
        decreases s@.len() - i,
    {
        r.push(s[i]);
        i = i + 1;
    }
    r
}

/// Whether the characters of `a` are exactly those of `b`.
pub(crate) fn chars_equal(a: &Vec<char>, b: &str) -> (e: bool)
    ensures
        e == (a@ == b@),
{
    let n = b.unicode_len();
    if a.len() != n {
        return false;
    }
    let mut i: usize = 0;
    while i < n
        invariant
            n == b@.len(),
            n == a@.len(),
            i <= n,
            a@.subrange(0, i as int) == b@.subrange(0, i as int),
        decreases n - i,
    {
        if a[i] != b.get_char(i) {
            return false;
        }
        assert(a@.subrange(0, i as int + 1) =~= a@.subrange(0, i as int).push(a@[i as int]));
        assert(b@.subrange(0, i as int + 1) =~= b@.subrange(0, i as int).push(b@[i as int]));
        i = i + 1;
    }
    assert(a@ =~= a@.subrange(0, n as int));
    assert(b@ =~= b@.subrange(0, n as int));
    true
}

/// The decimal digits of `n`, most significant first, without leading zeros.
pub open spec fn digits(n: nat) -> Seq<char>
    decreases n,
{
    if n < 10 {
        seq![(48 + n) as char]
    } else {
        digits(n / 10).push((48 + n % 10) as char)
    }
}

/// `n` written in decimal, with a leading `-` when negative, as `Display`
/// writes an integer.
pub open spec fn decimal(n: int) -> Seq<char> {
    if n < 0 {
        seq!['-'] + digits((-n) as nat)
    } else {
        digits(n as nat)
    }
}

fn push_digits(s: &mut String, n: u32)
    ensures
        final(s)@ == old(s)@ + digits(n as nat),
    decreases n,
{
    if n >= 10 {
        push_digits(s, n / 10);
    }
    let d: u8 = (n % 10) as u8;
    let c = (48u8 + d) as char;
    s.push(c);
    proof {
        if n >= 10 {
            assert(old(s)@ + digits(n as nat) =~= old(s)@ + digits((n / 10) as nat) + seq![c]);
        } else {
            assert(old(s)@ + digits(n as nat) =~= old(s)@.push(c));
        }
    }
}

/// `n` in decimal.
pub(crate) fn decimal_string(n: i32) -> (r: String)
    ensures
        r@ == decimal(n as int),
{
    let mut r = String::new();
    if n < 0 {
        r.push('-');
        let m: u32 = if n == i32::MIN { 0x8000_0000u32 } else { (-n) as u32 };
        push_digits(&mut r, m);
    } else {
        push_digits(&mut r, n as u32);
    }
    r
}

/// What `{:?}` writes for a string: the text in double quotes, with quotes,
/// backslashes, control and unprintable characters escaped.
pub uninterp spec fn str_debug(s: Seq<char>) -> Seq<char>;

/// Calls `<str as Debug>::fmt` through `format!("{:?}")`. The contract claims
/// only that the result is the named rendering of `s`; the escaping rules
/// themselves are left unstated.
#[verifier::external_body]
pub(crate) fn debug_quoted(s: &str) -> (r: String)
    ensures
        r@ == str_debug(s@),
{
    format!("{:?}", s)
}

proof fn lemma_lower_keeps_ws(c: char)
    ensures
        is_ws(ascii_lower(c)) == is_ws(c),
{
}

proof fn lemma_lower_drop_first(s: Seq<char>)
    requires
        s.len() > 0,
    ensures
        lower(s).drop_first() == lower(s.drop_first()),
        lower(s)[0] == ascii_lower(s[0]),
{
    assert(lower(s).drop_first() =~= lower(s.drop_first()));
}

proof fn lemma_lower_drop_last(s: Seq<char>)
    requires
        s.len() > 0,
    ensures
        lower(s).drop_last() == lower(s.drop_last()),
        lower(s).last() == ascii_lower(s.last()),
{
    assert(lower(s).drop_last() =~= lower(s.drop_last()));
}

proof fn lemma_trim_start_lower(s: Seq<char>)
    ensures
        trim_start(lower(s)) == lower(trim_start(s)),
    decreases s.len(),
{
    if s.len() > 0 {
        lemma_lower_drop_first(s);
        lemma_lower_keeps_ws(s[0]);
        lemma_trim_start_lower(s.drop_first());
    }
}

proof fn lemma_trim_end_lower(s: Seq<char>)
    ensures
        trim_end(lower(s)) == lower(trim_end(s)),
    decreases s.len(),
{
    if s.len() > 0 {
        lemma_lower_drop_last(s);
        lemma_lower_keeps_ws(s.last());
        lemma_trim_end_lower(s.drop_last());
    }
}

/// Trimming and lower-casing commute: lower-casing never turns whitespace
/// into anything else, nor anything else into whitespace.
pub proof fn lemma_trim_lower_commute(s: Seq<char>)
    ensures
        trim(lower(s)) == lower(trim(s)),
{
    lemma_trim_start_lower(s);
    lemma_trim_end_lower(trim_start(s));
}

proof fn lemma_trim_start_shape(s: Seq<char>)
    ensures
        trim_start(s).len() > 0 ==> !is_ws(trim_start(s)[0]),
        trim_start(s).len() <= s.len(),
        trim_start(s) == s.subrange(s.len() - trim_start(s).len(), s.len() as int),
    decreases s.len(),
{
    if s.len() > 0 && is_ws(s[0]) {
        lemma_trim_start_shape(s.drop_first());
        assert(s.drop_first().subrange(s.len() - 1 - trim_start(s).len(), s.len() - 1) =~= s.subrange(
            s.len() - trim_start(s).len(),
            s.len() as int,
        ));
    } else {
        assert(s.subrange(0, s.len() as int) =~= s);
    }
}

proof fn lemma_trim_end_shape(s: Seq<char>)
    ensures
        trim_end(s).len() > 0 ==> !is_ws(trim_end(s).last()),
        trim_end(s).len() <= s.len(),
        trim_end(s) == s.subrange(0, trim_end(s).len() as int),
    decreases s.len(),
{
    if s.len() > 0 && is_ws(s.last()) {
        lemma_trim_end_shape(s.drop_last());
        assert(s.drop_last().subrange(0, trim_end(s).len() as int) =~= s.subrange(0, trim_end(s).len() as int));
    } else {
        assert(s.subrange(0, s.len() as int) =~= s);
    }
}

/// Trimming twice is trimming once.
pub proof fn lemma_trim_idempotent(s: Seq<char>)
    ensures
        trim(trim(s)) == trim(s),
{
    let a = trim_start(s);
    let t = trim_end(a);
    lemma_trim_start_shape(s);
    lemma_trim_end_shape(a);
    if t.len() > 0 {
        assert(t[0] == a[0]);
        assert(trim_start(t) == t);
        assert(trim_end(t) == t);
    } else {
        assert(trim_start(t) == t);
        assert(trim_end(t) == t);
    }
}

} // verus!
