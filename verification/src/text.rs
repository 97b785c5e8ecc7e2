//! Character-level string helpers shared by the prompt builders, the
//! provider-reply parsers and the tool result formatting.
use vstd::prelude::*;

verus! {

/// Appends one character to a string (std's `String::push`).
#[verifier::external_body]
pub(crate) fn push_char(s: &mut String, c: char)
    ensures
        final(s)@ == old(s)@.push(c),
{
    s.push(c);
}

/// The characters of a string slice, in order.
pub fn chars_of(s: &str) -> (out: Vec<char>)
    ensures
        out@ == s@,
{
    broadcast use vstd::string::group_string_axioms;

    let mut out: Vec<char> = Vec::new();
    for c in it: s.chars()
        invariant
            it.seq() == s@,
            out@ == it.seq().take(it.index() as int),
    {
        out.push(c);
    }
    out
}

/// Appends every character of `cs` to `s`.
pub fn append_chars(s: &mut String, cs: &Vec<char>)
    ensures
        final(s)@ == old(s)@ + cs@,
{
    let ghost start = s@;
    let n = cs.len();
    let mut i: usize = 0;
    while i < n
        invariant
            n == cs@.len(),
            i <= n,
            s@ == start + cs@.take(i as int),
        decreases n - i,
    {
        push_char(s, cs[i]);
        proof {
            assert(cs@.take(i + 1) =~= cs@.take(i as int).push(cs@[i as int]));
        }
        i = i + 1;
    }
    proof {
        assert(cs@.take(n as int) =~= cs@);
    }
}

/// A string holding exactly the characters of `cs`.
pub fn string_from_chars(cs: &Vec<char>) -> (s: String)
    ensures
        s@ == cs@,
{
    let mut s = String::new();
    append_chars(&mut s, cs);
    proof {
        assert(Seq::<char>::empty() + cs@ =~= cs@);
    }
    s
}

/// Whether two string slices hold the same characters.
pub fn str_eq(a: &str, b: &str) -> (r: bool)
    ensures
        r == (a@ == b@),
{
    let sa = a.to_owned();
    let sb = b.to_owned();
    sa == sb
}

/// `needle` occurs in `hay` starting at position `i`.
pub open spec fn occurs_at(hay: Seq<char>, needle: Seq<char>, i: int) -> bool {
    0 <= i && i + needle.len() <= hay.len() && hay.subrange(i, i + needle.len()) == needle
}

/// `needle` occurs somewhere in `hay`.
pub open spec fn contains_seq(hay: Seq<char>, needle: Seq<char>) -> bool {
    exists|i: int| occurs_at(hay, needle, i)
}

/// `i` is the first position at which `needle` occurs in `hay`.
pub open spec fn is_first_occurrence(hay: Seq<char>, needle: Seq<char>, i: int) -> bool {
    occurs_at(hay, needle, i) && forall|j: int| 0 <= j < i ==> !occurs_at(hay, needle, j)
}

/// Whether `needle` occurs in `hay` at position `i`.
pub fn occurs_at_exec(hay: &Vec<char>, needle: &Vec<char>, i: usize) -> (r: bool)
    ensures
        r == occurs_at(hay@, needle@, i as int),
{
    let n = needle.len();
    if i > hay.len() || n > hay.len() - i {
        return false;
    }
    let mut k: usize = 0;
    while k < n
        invariant
            n == needle@.len(),
            i + n <= hay.len(),
            k <= n,
            forall|t: int| 0 <= t < k ==> hay@[i + t] == needle@[t],
        decreases n - k,
    {
        if hay[i + k] != needle[k] {
            proof {
                assert(hay@.subrange(i as int, i + n)[k as int] != needle@[k as int]);
            }
            return false;
        }
        k = k + 1;
    }
    proof {
        assert(hay@.subrange(i as int, i + n) =~= needle@);
    }
    true
}

/// The first position at which `needle` occurs in `hay`, if any.
pub fn find_seq(hay: &Vec<char>, needle: &Vec<char>) -> (r: Option<usize>)
    ensures
        match r {
            Some(i) => is_first_occurrence(hay@, needle@, i as int),
            None => !contains_seq(hay@, needle@),
        },
{
    if needle.len() > hay.len() {
        assert forall|i: int| !occurs_at(hay@, needle@, i) by {}
        return None;
    }
    let last = hay.len() - needle.len();
    let mut i: usize = 0;
    loop
        invariant
            last == hay@.len() - needle@.len(),
            i <= last,
            forall|j: int| 0 <= j < i ==> !occurs_at(hay@, needle@, j),
        ensures
            forall|j: int| 0 <= j <= last ==> !occurs_at(hay@, needle@, j),
        decreases last - i,
    {
        if occurs_at_exec(hay, needle, i) {
            return Some(i);
        }
        if i == last {
            break;
        }
        i = i + 1;
    }
    assert forall|j: int| !occurs_at(hay@, needle@, j) by {
        if 0 <= j <= last {
        }
    }
    None
}

/// Whether `needle` occurs anywhere in `hay`.
pub fn contains_chars(hay: &Vec<char>, needle: &Vec<char>) -> (r: bool)
    ensures
        r == contains_seq(hay@, needle@),
{
    match find_seq(hay, needle) {
        Some(_) => true,
        None => false,
    }
}

/// Unicode `White_Space` characters, the set that std's `char::is_whitespace`
/// and the `trim` family of `str` recognise.
pub open spec fn is_whitespace_spec(c: char) -> bool {
    ||| c == ' '
    ||| ('\t' <= c && c <= '\r')
    ||| c == '\u{85}'
    ||| c == '\u{a0}'
    ||| c == '\u{1680}'
    ||| ('\u{2000}' <= c && c <= '\u{200a}')
    ||| c == '\u{2028}'
    ||| c == '\u{2029}'
    ||| c == '\u{202f}'
    ||| c == '\u{205f}'
    ||| c == '\u{3000}'
}

pub fn is_whitespace(c: char) -> (r: bool)
    ensures
        r == is_whitespace_spec(c),
{
    c == ' ' || ('\t' <= c && c <= '\r') || c == '\u{85}' || c == '\u{a0}' || c == '\u{1680}' || (
    '\u{2000}' <= c && c <= '\u{200a}') || c == '\u{2028}' || c == '\u{2029}' || c == '\u{202f}'
        || c == '\u{205f}' || c == '\u{3000}'
}

/// Number of leading whitespace characters of `s`.
pub open spec fn leading_ws(s: Seq<char>) -> nat
    decreases s.len(),
{
    if s.len() > 0 && is_whitespace_spec(s[0]) {
        1 + leading_ws(s.drop_first())
    } else {
        0
    }
}

/// Number of trailing whitespace characters of `s`.
pub open spec fn trailing_ws(s: Seq<char>) -> nat
    decreases s.len(),
{
    if s.len() > 0 && is_whitespace_spec(s.last()) {
        1 + trailing_ws(s.drop_last())
    } else {
        0
    }
}

/// `s` without its leading whitespace (std's `str::trim_start`).
pub open spec fn trim_start_spec(s: Seq<char>) -> Seq<char> {
    s.skip(leading_ws(s) as int)
}

/// `s` without its trailing whitespace (std's `str::trim_end`).
pub open spec fn trim_end_spec(s: Seq<char>) -> Seq<char> {
    s.take(s.len() - trailing_ws(s))
}

/// `s` without leading and trailing whitespace (std's `str::trim`).
pub open spec fn trim_spec(s: Seq<char>) -> Seq<char> {
    trim_end_spec(trim_start_spec(s))
}

pub proof fn lemma_leading_ws(s: Seq<char>, k: int)
    requires
        0 <= k <= s.len(),
        forall|j: int| 0 <= j < k ==> is_whitespace_spec(#[trigger] s[j]),
        k == s.len() || !is_whitespace_spec(s[k]),
    ensures
        leading_ws(s) == k,
    decreases k,
{
    if k > 0 {
        lemma_leading_ws(s.drop_first(), k - 1);
    }
}

pub proof fn lemma_trailing_ws(s: Seq<char>, k: int)
    requires
        0 <= k <= s.len(),
        forall|j: int| s.len() - k <= j < s.len() ==> is_whitespace_spec(#[trigger] s[j]),
        k == s.len() || !is_whitespace_spec(s[s.len() - k - 1]),
    ensures
        trailing_ws(s) == k,
    decreases k,
{
    if k > 0 {
        let t = s.drop_last();
        assert forall|j: int| t.len() - (k - 1) <= j < t.len() implies is_whitespace_spec(
            #[trigger] t[j],
        ) by {
            assert(t[j] == s[j]);
        }
        if k - 1 < t.len() {
            assert(t[t.len() - (k - 1) - 1] == s[s.len() - k - 1]);
        }
        lemma_trailing_ws(t, k - 1);
    }
}

pub proof fn lemma_leading_ws_bound(s: Seq<char>)
    ensures
        leading_ws(s) <= s.len(),
    decreases s.len(),
{
    if s.len() > 0 && is_whitespace_spec(s[0]) {
        lemma_leading_ws_bound(s.drop_first());
    }
}

pub proof fn lemma_trailing_ws_bound(s: Seq<char>)
    ensures
        trailing_ws(s) <= s.len(),
    decreases s.len(),
{
    if s.len() > 0 && is_whitespace_spec(s.last()) {
        lemma_trailing_ws_bound(s.drop_last());
    }
}

/// Number of leading whitespace characters of `cs`.
pub fn count_leading_ws(cs: &Vec<char>) -> (k: usize)
    ensures
        k == leading_ws(cs@),
{
    let n = cs.len();
    let mut k: usize = 0;
    while k < n && is_whitespace(cs[k])
        invariant
            n == cs@.len(),
            k <= n,
            forall|j: int| 0 <= j < k ==> is_whitespace_spec(#[trigger] cs@[j]),
        decreases n - k,
    {
        k = k + 1;
    }
    proof {
        lemma_leading_ws(cs@, k as int);
    }
    k
}

/// Number of trailing whitespace characters of `cs`.
pub fn count_trailing_ws(cs: &Vec<char>) -> (k: usize)
    ensures
        k == trailing_ws(cs@),
{
    let n = cs.len();
    let mut k: usize = 0;
    while k < n && is_whitespace(cs[n - k - 1])
        invariant
            n == cs@.len(),
            k <= n,
            forall|j: int| n - k <= j < n ==> is_whitespace_spec(#[trigger] cs@[j]),
        decreases n - k,
    {
        k = k + 1;
    }
    proof {
        lemma_trailing_ws(cs@, k as int);
    }
    k
}

/// The characters `cs[from..to]`.
pub fn slice_chars(cs: &Vec<char>, from: usize, to: usize) -> (out: Vec<char>)
    requires
        from <= to <= cs@.len(),
    ensures
        out@ == cs@.subrange(from as int, to as int),
{
    let mut out: Vec<char> = Vec::new();
    let mut i = from;
    while i < to
        invariant
            from <= i <= to,
            to <= cs@.len(),
            out@ == cs@.subrange(from as int, i as int),
        decreases to - i,
    {
        out.push(cs[i]);
        proof {
            assert(cs@.subrange(from as int, i + 1) =~= cs@.subrange(from as int, i as int).push(
                cs@[i as int],
            ));
        }
        i = i + 1;
    }
    out
}

/// `cs` without leading whitespace.
pub fn trim_start_chars(cs: &Vec<char>) -> (out: Vec<char>)
    ensures
        out@ == trim_start_spec(cs@),
{
    let k = count_leading_ws(cs);
    proof {
        lemma_leading_ws_bound(cs@);
    }
    slice_chars(cs, k, cs.len())
}

/// `cs` without trailing whitespace.
pub fn trim_end_chars(cs: &Vec<char>) -> (out: Vec<char>)
    ensures
        out@ == trim_end_spec(cs@),
{
    let k = count_trailing_ws(cs);
    proof {
        lemma_trailing_ws_bound(cs@);
    }
    slice_chars(cs, 0, cs.len() - k)
}

/// `cs` without leading and trailing whitespace.
pub fn trim_chars(cs: &Vec<char>) -> (out: Vec<char>)
    ensures
        out@ == trim_spec(cs@),
{
    let a = trim_start_chars(cs);
    trim_end_chars(&a)
}

/// Decimal digits of `n`, most significant first, as std's `Display` for
/// unsigned integers writes them.
pub open spec fn decimal_spec(n: nat) -> Seq<char>
    decreases n,
{
    if n < 10 {
        seq![digit_char(n)]
    } else {
        decimal_spec(n / 10).push(digit_char(n % 10))
    }
}

/// The character of one decimal digit.
pub open spec fn digit_char(d: nat) -> char {
    if d == 0 {
        '0'
    } else if d == 1 {
        '1'
    } else if d == 2 {
        '2'
    } else if d == 3 {
        '3'
    } else if d == 4 {
        '4'
    } else if d == 5 {
        '5'
    } else if d == 6 {
        '6'
    } else if d == 7 {
        '7'
    } else if d == 8 {
        '8'
    } else {
        '9'
    }
}

fn digit_char_exec(d: u64) -> (c: char)
    requires
        d < 10,
    ensures
        c == digit_char(d as nat),
{
    if d == 0 {
        '0'
    } else if d == 1 {
        '1'
    } else if d == 2 {
        '2'
    } else if d == 3 {
        '3'
    } else if d == 4 {
        '4'
    } else if d == 5 {
        '5'
    } else if d == 6 {
        '6'
    } else if d == 7 {
        '7'
    } else if d == 8 {
        '8'
    } else {
        '9'
    }
}

/// Appends the decimal digits of `n`.
pub fn append_decimal(s: &mut String, n: u64)
    ensures
        final(s)@ == old(s)@ + decimal_spec(n as nat),
    decreases n,
{
    if n < 10 {
        push_char(s, digit_char_exec(n));
        proof {
            assert(old(s)@.push(digit_char(n as nat)) =~= old(s)@ + seq![digit_char(n as nat)]);
        }
    } else {
        append_decimal(s, n / 10);
        push_char(s, digit_char_exec(n % 10));
        proof {
            assert(decimal_spec(n as nat) == decimal_spec((n / 10) as nat).push(
                digit_char((n % 10) as nat),
            ));
            assert((old(s)@ + decimal_spec((n / 10) as nat)).push(digit_char((n % 10) as nat))
                =~= old(s)@ + decimal_spec(n as nat));
        }
    }
}

} // verus!
