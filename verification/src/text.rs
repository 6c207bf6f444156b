//! Character and string utilities: Unicode whitespace, trimming, equality
//! and decimal rendering, each with its specification.

use vstd::prelude::*;
use vstd::string::*;

verus! {

/// The Unicode `White_Space` property, as `char::is_whitespace` documents it.
pub open spec fn is_ws(c: char) -> bool {
    let n = c as u32;
    ||| 0x9 <= n <= 0xd
    ||| n == 0x20
    ||| n == 0x85
    ||| n == 0xa0
    ||| n == 0x1680
    ||| 0x2000 <= n <= 0x200a
    ||| n == 0x2028
    ||| n == 0x2029
    ||| n == 0x202f
    ||| n == 0x205f
    ||| n == 0x3000
}

/// Whether `c` is Unicode whitespace.
pub fn is_whitespace(c: char) -> (b: bool)
    ensures
        b == is_ws(c),
{
    let n = c as u32;
    (0x9 <= n && n <= 0xd) || n == 0x20 || n == 0x85 || n == 0xa0 || n == 0x1680 || (0x2000 <= n
        && n <= 0x200a) || n == 0x2028 || n == 0x2029 || n == 0x202f || n == 0x205f || n == 0x3000
}

/// The first index at or after `i` that does not hold whitespace (or the length).
pub open spec fn skip_ws(s: Seq<char>, i: int) -> int
    decreases s.len() - i,
{
    if 0 <= i < s.len() && is_ws(s[i]) {
        skip_ws(s, i + 1)
    } else {
        i
    }
}

/// Moving back from `j`, not below `lo`, past whitespace.
pub open spec fn skip_ws_back(s: Seq<char>, lo: int, j: int) -> int
    decreases j - lo,
{
    if lo < j <= s.len() && is_ws(s[j - 1]) {
        skip_ws_back(s, lo, j - 1)
    } else {
        j
    }
}

/// `s` without its leading and trailing whitespace.
pub open spec fn trim_spec(s: Seq<char>) -> Seq<char> {
    let a = skip_ws(s, 0);
    s.subrange(a, skip_ws_back(s, a, s.len() as int))
}

pub proof fn lemma_skip_ws_bounds(s: Seq<char>, i: int)
    requires
        0 <= i <= s.len(),
    ensures
        i <= skip_ws(s, i) <= s.len(),
        forall|k: int| i <= k < skip_ws(s, i) ==> is_ws(#[trigger] s[k]),
        skip_ws(s, i) < s.len() ==> !is_ws(s[skip_ws(s, i)]),
    decreases s.len() - i,
{
    if i < s.len() && is_ws(s[i]) {
        lemma_skip_ws_bounds(s, i + 1);
    }
}

pub proof fn lemma_skip_ws_back_bounds(s: Seq<char>, lo: int, j: int)
    requires
        0 <= lo <= j <= s.len(),
    ensures
        lo <= skip_ws_back(s, lo, j) <= j,
        forall|k: int| skip_ws_back(s, lo, j) <= k < j ==> is_ws(#[trigger] s[k]),
        skip_ws_back(s, lo, j) > lo ==> !is_ws(s[skip_ws_back(s, lo, j) - 1]),
    decreases j - lo,
{
    if lo < j && is_ws(s[j - 1]) {
        lemma_skip_ws_back_bounds(s, lo, j - 1);
    }
}

/// The trimmed sequence neither starts nor ends with whitespace, and it is
/// empty only when `s` is all whitespace.
pub proof fn lemma_trim(s: Seq<char>)
    ensures
        trim_spec(s).len() > 0 ==> !is_ws(trim_spec(s)[0]),
        trim_spec(s).len() > 0 ==> !is_ws(trim_spec(s).last()),
        trim_spec(s).len() == 0 ==> forall|k: int| 0 <= k < s.len() ==> is_ws(#[trigger] s[k]),
{
    lemma_skip_ws_bounds(s, 0);
    let a = skip_ws(s, 0);
    lemma_skip_ws_back_bounds(s, a, s.len() as int);
}

proof fn lemma_skip_ws_to(s: Seq<char>, i: int, a: int)
    requires
        0 <= i <= a <= s.len(),
        forall|k: int| i <= k < a ==> is_ws(#[trigger] s[k]),
        a < s.len() ==> !is_ws(s[a]),
    ensures
        skip_ws(s, i) == a,
    decreases a - i,
{
    if i < a {
        lemma_skip_ws_to(s, i + 1, a);
    }
}

proof fn lemma_skip_ws_back_to(s: Seq<char>, lo: int, j: int, b: int)
    requires
        0 <= lo <= b <= j <= s.len(),
        forall|k: int| b <= k < j ==> is_ws(#[trigger] s[k]),
        b > lo ==> !is_ws(s[b - 1]),
    ensures
        skip_ws_back(s, lo, j) == b,
    decreases j - b,
{
    if b < j {
        lemma_skip_ws_back_to(s, lo, j - 1, b);
    }
}

/// Text between whitespace trims to the text, when the text neither starts
/// nor ends with whitespace.
pub proof fn lemma_trim_padded(p: Seq<char>, c: Seq<char>, q: Seq<char>)
    requires
        forall|k: int| 0 <= k < p.len() ==> is_ws(#[trigger] p[k]),
        forall|k: int| 0 <= k < q.len() ==> is_ws(#[trigger] q[k]),
        c.len() > 0,
        !is_ws(c[0]),
        !is_ws(c.last()),
    ensures
        trim_spec(p + c + q) == c,
{
    let s = p + c + q;
    let a = p.len() as int;
    let b = (p.len() + c.len()) as int;
    assert forall|k: int| 0 <= k < a implies is_ws(#[trigger] s[k]) by {
        assert(s[k] == p[k]);
    }
    assert(s[a] == c[0]);
    lemma_skip_ws_to(s, 0, a);
    assert forall|k: int| b <= k < s.len() implies is_ws(#[trigger] s[k]) by {
        assert(s[k] == q[k - b]);
    }
    assert(s[b - 1] == c.last());
    lemma_skip_ws_back_to(s, a, s.len() as int, b);
    assert(s.subrange(a, b) =~= c);
}

/// The characters of `s`, in order.
pub fn chars_of(s: &str) -> (v: Vec<char>)
    ensures
        v@ == s@,
{
    let n = s.unicode_len();
    let mut v: Vec<char> = Vec::new();
    let mut i: usize = 0;
    while i < n
        invariant
            n == s@.len(),
            i <= n,
            v@ == s@.subrange(0, i as int),
        decreases n - i,
    {
        v.push(s.get_char(i));
        i = i + 1;
    }
    v
}

/// `s` without leading and trailing whitespace, as `str::trim` gives it.
pub fn trim(s: &str) -> (t: &str)
    ensures
        t@ == trim_spec(s@),
{
    let v = chars_of(s);
    let n = v.len();
    let mut a: usize = 0;
    while a < n && is_whitespace(v[a])
        invariant
            a <= n,
            n == s@.len(),
            v@ == s@,
            skip_ws(s@, a as int) == skip_ws(s@, 0),
        decreases n - a,
    {
        a = a + 1;
    }
    let mut b: usize = n;
    while b > a && is_whitespace(v[b - 1])
        invariant
            a <= b <= n,
            n == s@.len(),
            v@ == s@,
            a == skip_ws(s@, 0),
            skip_ws_back(s@, a as int, b as int) == skip_ws_back(s@, a as int, n as int),
        decreases b - a,
    {
        b = b - 1;
    }
    s.substring_char(a, b)
}


/// The number of bytes that `c` takes in UTF-8, as `char::len_utf8`
/// documents it.
pub open spec fn utf8_width(c: char) -> nat {
    let n = c as u32;
    if n < 0x80 {
        1
    } else if n < 0x800 {
        2
    } else if n < 0x10000 {
        3
    } else {
        4
    }
}

/// The position of the character at which byte `p` of the UTF-8 encoding of
/// `s` starts, if `p` lies on a character boundary (`s.len()` for the end of
/// the text); `None` otherwise.
pub open spec fn char_pos(s: Seq<char>, p: int) -> Option<int>
    decreases s.len(),
{
    if p == 0 {
        Some(0)
    } else if p < 0 || s.len() == 0 || p < utf8_width(s[0]) {
        None
    } else {
        match char_pos(s.drop_first(), p - utf8_width(s[0])) {
            Some(k) => Some(k + 1),
            None => None,
        }
    }
}

/// A character boundary at byte `p` is at most `p` characters in, and
/// within the text.
pub proof fn lemma_char_pos_bounds(s: Seq<char>, p: int)
    requires
        char_pos(s, p) is Some,
    ensures
        0 <= char_pos(s, p).unwrap() <= p,
        char_pos(s, p).unwrap() <= s.len(),
    decreases s.len(),
{
    if p != 0 {
        lemma_char_pos_bounds(s.drop_first(), p - utf8_width(s[0]));
    }
}

/// A character boundary depends only on the characters before it.
pub proof fn lemma_char_pos_prefix(s: Seq<char>, p: int, t: Seq<char>)
    requires
        char_pos(s, p) is Some,
        t.len() >= char_pos(s, p).unwrap(),
        t.subrange(0, char_pos(s, p).unwrap()) == s.subrange(0, char_pos(s, p).unwrap()),
    ensures
        char_pos(t, p) == char_pos(s, p),
    decreases s.len(),
{
    lemma_char_pos_bounds(s, p);
    if p != 0 {
        let k = char_pos(s, p).unwrap();
        let q = p - utf8_width(s[0]);
        lemma_char_pos_bounds(s.drop_first(), q);
        let k1 = char_pos(s.drop_first(), q).unwrap();
        assert(k == k1 + 1);
        assert(t[0] == t.subrange(0, k)[0]);
        assert(s[0] == s.subrange(0, k)[0]);
        assert(t.drop_first().subrange(0, k1) =~= t.subrange(0, k).drop_first());
        assert(s.drop_first().subrange(0, k1) =~= s.subrange(0, k).drop_first());
        lemma_char_pos_prefix(s.drop_first(), q, t.drop_first());
    }
}

fn width_of(c: char) -> (w: u128)
    ensures
        w == utf8_width(c),
{
    let n = c as u32;
    if n < 0x80 {
        1
    } else if n < 0x800 {
        2
    } else if n < 0x10000 {
        3
    } else {
        4
    }
}

/// The position of the character that starts at byte `p` of `s`, if `p` is
/// a character boundary.
pub fn char_index_of_byte(s: &str, p: usize) -> (r: Option<usize>)
    ensures
        r matches Some(k) ==> char_pos(s@, p as int) == Some(k as int),
        r is None ==> char_pos(s@, p as int) is None,
{
    let n = s.unicode_len();
    let mut k: usize = 0;
    let mut off: u128 = 0;
    assert(s@.subrange(0, n as int) =~= s@);
    while k < n && off < p as u128
        invariant
            n == s@.len(),
            k <= n,
            off <= p,
            char_pos(s@, p as int) == (match char_pos(s@.subrange(k as int, n as int), p - off) {
                Some(j) => Some(j + k),
                None => None,
            }),
        decreases n - k,
    {
        let w = width_of(s.get_char(k));
        let ghost t = s@.subrange(k as int, n as int);
        assert(t[0] == s@[k as int]);
        if off + w > p as u128 {
            return None;
        }
        assert(t.drop_first() =~= s@.subrange(k + 1, n as int));
        off = off + w;
        k = k + 1;
    }
    if off == p as u128 {
        Some(k)
    } else {
        assert(s@.subrange(k as int, n as int).len() == 0);
        None
    }
}

/// Appends `c` to the end of `s`.
///
/// Trusted: calls `String::push`, whose documentation says it appends the
/// given `char` to the end of the string; the contract claims exactly that of
/// the string's characters.
#[verifier::external_body]
pub(crate) fn push_char(s: &mut String, c: char)
    ensures
        final(s)@ == old(s)@.push(c),
{
    s.push(c)
}

/// A new string holding the characters of `s`.
pub fn to_string(s: &str) -> (r: String)
    ensures
        r@ == s@,
{
    String::from_str(s)
}

/// Whether `a` and `b` hold the same characters.
pub fn str_equal(a: &str, b: &str) -> (r: bool)
    ensures
        r == (a@ == b@),
{
    let n = a.unicode_len();
    if n != b.unicode_len() {
        return false;
    }
    let mut i: usize = 0;
    while i < n
        invariant
            n == a@.len(),
            n == b@.len(),
            i <= n,
            forall|k: int| 0 <= k < i ==> a@[k] == b@[k],
        decreases n - i,
    {
        if a.get_char(i) != b.get_char(i) {
            return false;
        }
        i = i + 1;
    }
    assert(a@ =~= b@);
    true
}

/// The index of the first whitespace character at or after `i` (or the length).
pub open spec fn find_ws(s: Seq<char>, i: int) -> int
    decreases s.len() - i,
{
    if 0 <= i < s.len() && !is_ws(s[i]) {
        find_ws(s, i + 1)
    } else {
        i
    }
}

pub proof fn lemma_find_ws_bounds(s: Seq<char>, i: int)
    requires
        0 <= i <= s.len(),
    ensures
        i <= find_ws(s, i) <= s.len(),
        forall|k: int| i <= k < find_ws(s, i) ==> !is_ws(#[trigger] s[k]),
        find_ws(s, i) < s.len() ==> is_ws(s[find_ws(s, i)]),
    decreases s.len() - i,
{
    if i < s.len() && !is_ws(s[i]) {
        lemma_find_ws_bounds(s, i + 1);
    }
}

/// The decimal digit for `d` (for `d < 10`).
pub open spec fn digit(d: nat) -> char {
    ((48 + d) as u8) as char
}

/// The decimal representation of `n`, without leading zeros.
pub open spec fn decimal(n: nat) -> Seq<char>
    decreases n,
{
    if n < 10 {
        seq![digit(n)]
    } else {
        decimal(n / 10) + seq![digit(n % 10)]
    }
}

fn digit_char(d: u8) -> (c: char)
    requires
        d < 10,
    ensures
        c == digit(d as nat),
{
    (48u8 + d) as char
}

/// Appends the decimal representation of `n` to `s`.
pub fn push_decimal(s: &mut String, n: u8)
    ensures
        final(s)@ == old(s)@ + decimal(n as nat),
{
    if n >= 100 {
        push_char(s, digit_char(n / 100));
        push_char(s, digit_char((n / 10) % 10));
        push_char(s, digit_char(n % 10));
        assert(decimal(n as nat) =~= seq![digit((n / 100) as nat), digit(((n / 10) % 10) as nat), digit((n % 10) as nat)]) by {
            assert(decimal((n / 10) as nat) == decimal(((n / 10) / 10) as nat) + seq![digit(((n / 10) % 10) as nat)]);
        }
    } else if n >= 10 {
        push_char(s, digit_char(n / 10));
        push_char(s, digit_char(n % 10));
        assert(decimal(n as nat) =~= seq![digit((n / 10) as nat), digit((n % 10) as nat)]) by {
            assert(decimal((n / 10) as nat) == seq![digit((n / 10) as nat)]);
        }
    } else {
        push_char(s, digit_char(n));
    }
    assert(final(s)@ =~= old(s)@ + decimal(n as nat));
}

} // verus!
