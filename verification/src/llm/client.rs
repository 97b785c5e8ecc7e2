//! The decisions of the OpenAI-compatible client: how provider replies are
//! classified, when a rate-limited request is retried and after how long, and
//! how endpoint URLs are formed. The HTTP exchange itself is done by the
//! application around these functions.
use std::time::Duration;

use vstd::prelude::*;

use crate::llm::decimal::{
    all_digits, decimal_millis, digits_value, first_index, first_index_is, frac_part,
    has_char, int_part, is_ascii_digit, is_plain_decimal, digits_value_capped,
    fraction_millis_exec, lemma_digits_value_push,
};
use crate::json::{json_pointer_str, json_string_at};
use crate::llm::types::ChatCompletionResponse;
use crate::text::{
    append_chars, chars_of, find_seq, is_first_occurrence, contains_seq, slice_chars,
    trim_start_chars, trim_start_spec, contains_chars, push_char, append_decimal, decimal_spec,
};

verus! {

/// Errors of a chat-completion or model-listing request.
#[derive(Debug, Clone, PartialEq, Eq)]
pub enum LlmError {
    /// The HTTP exchange itself failed; holds the transport's message.
    Request(String),
    /// The provider answered with a non-success status.
    ProviderError { status: u16, body: String },
    /// The provider answered without any choice.
    EmptyResponse,
    /// A daily token quota was exhausted: retrying cannot help.
    DailyQuotaExceeded(String),
}

pub open spec fn llm_error_message_spec(e: LlmError) -> Seq<char> {
    match e {
        LlmError::Request(m) => "request failed: "@ + m@,
        LlmError::ProviderError { status, body } => "provider returned an error ("@
            + decimal_spec(status as nat) + "): "@ + body@,
        LlmError::EmptyResponse => "provider returned no choices"@,
        LlmError::DailyQuotaExceeded(m) => m@,
    }
}

impl LlmError {
    /// The human-readable text of the error.
    pub fn message(&self) -> (m: String)
        ensures
            m@ == llm_error_message_spec(*self),
    {
        match self {
            LlmError::Request(e) => {
                let mut m = String::from_str("request failed: ");
                m.append(e.as_str());
                m
            },
            LlmError::ProviderError { status, body } => {
                let mut m = String::from_str("provider returned an error (");
                append_decimal(&mut m, *status as u64);
                m.append("): ");
                m.append(body.as_str());
                m
            },
            LlmError::EmptyResponse => String::from_str("provider returned no choices"),
            LlmError::DailyQuotaExceeded(text) => text.clone(),
        }
    }
}

/// How many times a rate-limited request is retried.
pub const MAX_RETRIES: u32 = 3;

/// The fallback wait when a rate-limited reply suggests none.
pub const DEFAULT_RATE_LIMIT_WAIT_MS: u64 = 2500;

/// The least wait before the retry that follows attempt `attempt`.
pub open spec fn backoff_floor_ms(attempt: nat) -> nat {
    if attempt == 0 {
        1000
    } else if attempt == 1 {
        4000
    } else {
        10000
    }
}

fn backoff_floor_exec(attempt: u32) -> (r: u64)
    ensures
        r as nat == backoff_floor_ms(attempt as nat),
{
    if attempt == 0 {
        1000
    } else if attempt == 1 {
        4000
    } else {
        10000
    }
}

// ---------------------------------------------------------------------------
// The "try again in ..." hint of a rate-limited reply body.

/// The phrase after which providers state the suggested wait.
pub open spec fn retry_phrase() -> Seq<char> {
    seq!['t', 'r', 'y', ' ', 'a', 'g', 'a', 'i', 'n', ' ', 'i', 'n']
}

/// Characters that may make up the duration token before its final 's'.
pub open spec fn is_token_char(c: char) -> bool {
    is_ascii_digit(c) || c == '.' || c == 'm'
}

/// Number of leading token characters of `s`.
pub open spec fn token_run(s: Seq<char>) -> nat
    decreases s.len(),
{
    if s.len() > 0 && is_token_char(s[0]) {
        1 + token_run(s.drop_first())
    } else {
        0
    }
}

/// Length of the duration token at the start of `s`: the run of digits, '.'
/// and 'm', followed by the 's' that ends it, if there is one.
pub open spec fn token_len(s: Seq<char>) -> nat {
    let k = token_run(s);
    if k < s.len() && s[k as int] == 's' {
        k + 1
    } else {
        k
    }
}

/// Milliseconds a duration token stands for, unclamped: either `<secs>s` or
/// `<mins>m<secs>s` (where `<secs>` may be empty), each number a decimal
/// numeral; `None` when the token has neither shape.
pub open spec fn token_millis(token: Seq<char>) -> Option<nat> {
    if has_char(token, 'm') {
        let p = first_index(token, 'm');
        let minutes = token.take(p);
        let rest = token.skip(p + 1);
        if is_plain_decimal(minutes) && rest.len() > 0 && rest.last() == 's' && (rest.len() == 1
            || is_plain_decimal(rest.drop_last())) {
            Some(decimal_millis(minutes, rest.drop_last()))
        } else {
            None
        }
    } else if token.len() > 0 && token.last() == 's' && is_plain_decimal(token.drop_last()) {
        Some(decimal_millis(Seq::empty(), token.drop_last()))
    } else {
        None
    }
}

/// `ms` bounded to `[lo, hi]`.
pub open spec fn clamp_nat(ms: nat, lo: nat, hi: nat) -> nat {
    if ms < lo {
        lo
    } else if ms > hi {
        hi
    } else {
        ms
    }
}

/// The wait suggested by a rate-limited reply body, in milliseconds bounded to
/// `[250, 30000]`: the duration token after the first "try again in" (and any
/// whitespace after it), when there is one and it reads as a duration.
pub open spec fn retry_after_millis_spec(body: Seq<char>) -> Option<nat> {
    if contains_seq(body, retry_phrase()) {
        let i = choose|i: int| is_first_occurrence(body, retry_phrase(), i);
        let rest = trim_start_spec(body.skip(i + 12));
        let token = rest.take(token_len(rest) as int);
        match token_millis(token) {
            Some(ms) => Some(clamp_nat(ms, 250, 30000)),
            None => None,
        }
    } else {
        None
    }
}

proof fn lemma_token_run(s: Seq<char>, k: int)
    requires
        0 <= k <= s.len(),
        forall|j: int| 0 <= j < k ==> is_token_char(#[trigger] s[j]),
        k == s.len() || !is_token_char(s[k]),
    ensures
        token_run(s) == k,
    decreases k,
{
    if k > 0 {
        lemma_token_run(s.drop_first(), k - 1);
    }
}

/// Length of the duration token at the start of `cs`.
fn token_len_exec(cs: &Vec<char>) -> (n: usize)
    ensures
        n == token_len(cs@),
        n <= cs@.len(),
{
    let len = cs.len();
    let mut k: usize = 0;
    while k < len && (('0' <= cs[k] && cs[k] <= '9') || cs[k] == '.' || cs[k] == 'm')
        invariant
            len == cs@.len(),
            k <= len,
            forall|j: int| 0 <= j < k ==> is_token_char(#[trigger] cs@[j]),
        decreases len - k,
    {
        k = k + 1;
    }
    proof {
        lemma_token_run(cs@, k as int);
    }
    if k < len && cs[k] == 's' {
        k + 1
    } else {
        k
    }
}

proof fn lemma_first_index_unique(s: Seq<char>, c: char, i: int)
    requires
        first_index_is(s, c, i),
    ensures
        has_char(s, c),
        first_index(s, c) == i,
{
    let j = first_index(s, c);
    assert(first_index_is(s, c, j));
    if j < i {
        assert(s[j] == c);
    } else if i < j {
        assert(s[i] == c);
    }
}

/// The first position of `c` in `cs`, if any.
fn find_char(cs: &Vec<char>, c: char) -> (r: Option<usize>)
    ensures
        match r {
            Some(i) => first_index_is(cs@, c, i as int) && first_index(cs@, c) == i,
            None => !has_char(cs@, c),
        },
{
    let n = cs.len();
    let mut i: usize = 0;
    while i < n
        invariant
            n == cs@.len(),
            i <= n,
            forall|j: int| 0 <= j < i ==> cs@[j] != c,
        decreases n - i,
    {
        if cs[i] == c {
            proof {
                lemma_first_index_unique(cs@, c, i as int);
            }
            return Some(i);
        }
        i = i + 1;
    }
    None
}

/// Whether `cs[from..to]` holds only ASCII digits.
fn all_digits_exec(cs: &Vec<char>, from: usize, to: usize) -> (r: bool)
    requires
        from <= to <= cs@.len(),
    ensures
        r == all_digits(cs@.subrange(from as int, to as int)),
{
    let mut i = from;
    while i < to
        invariant
            from <= i <= to,
            to <= cs@.len(),
            forall|j: int| from <= j < i ==> is_ascii_digit(#[trigger] cs@[j]),
        decreases to - i,
    {
        if !('0' <= cs[i] && cs[i] <= '9') {
            proof {
                assert(cs@.subrange(from as int, to as int)[i - from] == cs@[i as int]);
            }
            return false;
        }
        i = i + 1;
    }
    proof {
        let sub = cs@.subrange(from as int, to as int);
        assert forall|j: int| 0 <= j < sub.len() implies is_ascii_digit(#[trigger] sub[j]) by {
            assert(sub[j] == cs@[from + j]);
        }
    }
    true
}

/// The integer and fraction digits of a decimal numeral, when `cs` is one.
fn decimal_parts(cs: &Vec<char>) -> (r: Option<(Vec<char>, Vec<char>)>)
    ensures
        r is Some <==> is_plain_decimal(cs@),
        r matches Some((i, f)) ==> i@ == int_part(cs@) && f@ == frac_part(cs@),
{
    let n = cs.len();
    let (ip, fp) = match find_char(cs, '.') {
        Some(d) => {
            proof {
                assert(cs@.take(d as int) =~= cs@.subrange(0, d as int));
                assert(cs@.skip(d + 1) =~= cs@.subrange(d + 1, n as int));
            }
            (slice_chars(cs, 0, d), slice_chars(cs, d + 1, n))
        },
        None => {
            proof {
                assert(cs@.subrange(0, n as int) =~= cs@);
            }
            (slice_chars(cs, 0, n), Vec::new())
        },
    };
    proof {
        assert(ip@.subrange(0, ip@.len() as int) =~= ip@);
        assert(fp@.subrange(0, fp@.len() as int) =~= fp@);
    }
    let ok = all_digits_exec(&ip, 0, ip.len()) && all_digits_exec(&fp, 0, fp.len()) && ip.len()
        + fp.len() > 0;
    if ok {
        Some((ip, fp))
    } else {
        None
    }
}

/// Milliseconds in `minutes` minutes and `seconds` seconds (decimal parts
/// given), bounded to `[250, 30000]`.
fn clamped_decimal_millis(mi: &Vec<char>, mf: &Vec<char>, si: &Vec<char>, sf: &Vec<char>) -> (r:
    u64)
    requires
        all_digits(mi@),
        all_digits(mf@),
        all_digits(si@),
        all_digits(sf@),
    ensures
        r as nat == clamp_nat(
            60000 * digits_value(mi@) + 1000 * digits_value(si@)
                + crate::llm::decimal::fraction_millis(mf@, sf@),
            250,
            30000,
        ),
{
    proof {
        assert(mi@.subrange(0, mi@.len() as int) =~= mi@);
        assert(si@.subrange(0, si@.len() as int) =~= si@);
    }
    let m = digits_value_capped(mi, 0, mi.len(), 1000);
    let s = digits_value_capped(si, 0, si.len(), 1000);
    let f = fraction_millis_exec(mf, sf);
    let total = 60000 * m + 1000 * s + f;
    if total < 250 {
        250
    } else if total > 30000 {
        30000
    } else {
        total
    }
}

/// Milliseconds a duration token stands for, bounded to `[250, 30000]`.
fn token_millis_exec(token: &Vec<char>) -> (r: Option<u64>)
    ensures
        match token_millis(token@) {
            Some(ms) => r == Some(clamp_nat(ms, 250, 30000) as u64),
            None => r is None,
        },
{
    let n = token.len();
    match find_char(token, 'm') {
        Some(p) => {
            let minutes = slice_chars(token, 0, p);
            let rest = slice_chars(token, p + 1, n);
            proof {
                assert(token@.take(p as int) =~= minutes@);
                assert(token@.skip(p + 1) =~= rest@);
            }
            let mparts = decimal_parts(&minutes);
            match mparts {
                None => None,
                Some((mi, mf)) => {
                    let rn = rest.len();
                    if rn == 0 || rest[rn - 1] != 's' {
                        return None;
                    }
                    let secs = slice_chars(&rest, 0, rn - 1);
                    proof {
                        assert(rest@.drop_last() =~= secs@);
                    }
                    if rn == 1 {
                        let empty: Vec<char> = Vec::new();
                        proof {
                            assert(!has_char(secs@, '.'));
                            assert(int_part(secs@) =~= Seq::<char>::empty());
                            assert(frac_part(secs@) =~= Seq::<char>::empty());
                        }
                        Some(clamped_decimal_millis(&mi, &mf, &empty, &empty))
                    } else {
                        match decimal_parts(&secs) {
                            None => None,
                            Some((si, sf)) => Some(clamped_decimal_millis(&mi, &mf, &si, &sf)),
                        }
                    }
                },
            }
        },
        None => {
            if n == 0 || token[n - 1] != 's' {
                return None;
            }
            let secs = slice_chars(token, 0, n - 1);
            proof {
                assert(token@.drop_last() =~= secs@);
            }
            match decimal_parts(&secs) {
                None => None,
                Some((si, sf)) => {
                    let empty: Vec<char> = Vec::new();
                    proof {
                        let e = Seq::<char>::empty();
                        assert(!has_char(e, '.'));
                        assert(int_part(e) =~= e);
                        assert(frac_part(e) =~= e);
                    }
                    Some(clamped_decimal_millis(&empty, &empty, &si, &sf))
                },
            }
        },
    }
}

/// The wait, in milliseconds, that a rate-limited reply body suggests; see
/// `retry_after_millis_spec`.
pub fn retry_after_millis_from_body(body: &str) -> (r: Option<u64>)
    ensures
        match retry_after_millis_spec(body@) {
            Some(ms) => r == Some(ms as u64),
            None => r is None,
        },
{
    let cs = chars_of(body);
    let phrase = vec!['t', 'r', 'y', ' ', 'a', 'g', 'a', 'i', 'n', ' ', 'i', 'n'];
    proof {
        assert(phrase@ =~= retry_phrase());
    }
    match find_seq(&cs, &phrase) {
        None => None,
        Some(i) => {
            proof {
                let j = choose|j: int| is_first_occurrence(cs@, retry_phrase(), j);
                assert(is_first_occurrence(cs@, retry_phrase(), j));
                if j < i {
                    assert(crate::text::occurs_at(cs@, retry_phrase(), j));
                } else if i < j {
                    assert(crate::text::occurs_at(cs@, retry_phrase(), i as int));
                }
                assert(crate::text::occurs_at(cs@, retry_phrase(), i as int));
                assert(retry_phrase().len() == 12);
                assert(i + 12 <= cs@.len());
                assert(cs@.len() == cs.len());
            }
            let after = slice_chars(&cs, i + 12, cs.len());
            proof {
                assert(cs@.skip(i + 12) =~= after@);
            }
            let rest = trim_start_chars(&after);
            let tl = token_len_exec(&rest);
            let token = slice_chars(&rest, 0, tl);
            proof {
                assert(rest@.take(tl as int) =~= token@);
            }
            token_millis_exec(&token)
        },
    }
}

/// What `std::time::Duration::from_millis` returns for `ms`.
pub uninterp spec fn duration_of_millis(ms: u64) -> Duration;

/// A duration of `ms` milliseconds (std's `Duration::from_millis`).
#[verifier::external_body]
fn duration_from_millis(ms: u64) -> (d: Duration)
    ensures
        d == duration_of_millis(ms),
{
    Duration::from_millis(ms)
}

/// The wait a rate-limited reply body suggests ("... try again in 2.7s" or
/// "... try again in 19m59.2s"), bounded to `[250 ms, 30 s]`.
pub fn retry_after_from_body(body: &str) -> (r: Option<Duration>)
    ensures
        match retry_after_millis_spec(body@) {
            Some(ms) => r == Some(duration_of_millis(ms as u64)),
            None => r is None,
        },
{
    match retry_after_millis_from_body(body) {
        Some(ms) => Some(duration_from_millis(ms)),
        None => None,
    }
}

// ---------------------------------------------------------------------------
// The `Retry-After` header.

/// `s` is an optional '+' followed by at least one ASCII digit: the shape
/// std's `u64` parser accepts.
pub open spec fn unsigned_numeral_digits(s: Seq<char>) -> Option<Seq<char>> {
    let d = if s.len() > 0 && s[0] == '+' {
        s.drop_first()
    } else {
        s
    };
    if d.len() > 0 && all_digits(d) {
        Some(d)
    } else {
        None
    }
}

/// What std's `str::parse::<u64>` gives for `s`.
pub open spec fn parse_u64_spec(s: Seq<char>) -> Option<nat> {
    match unsigned_numeral_digits(s) {
        Some(d) => if digits_value(d) <= u64::MAX {
            Some(digits_value(d))
        } else {
            None
        },
        None => None,
    }
}

/// Parses a decimal `u64` exactly as std's `str::parse::<u64>` does.
pub fn parse_u64(s: &str) -> (r: Option<u64>)
    ensures
        match parse_u64_spec(s@) {
            Some(v) => r == Some(v as u64),
            None => r is None,
        },
{
    let cs = chars_of(s);
    let n = cs.len();
    let start: usize = if n > 0 && cs[0] == '+' {
        1
    } else {
        0
    };
    let ghost d = if cs@.len() > 0 && cs@[0] == '+' {
        cs@.drop_first()
    } else {
        cs@
    };
    proof {
        assert(d =~= cs@.subrange(start as int, n as int));
    }
    if start == n || !all_digits_exec(&cs, start, n) {
        return None;
    }
    proof {
        assert(unsigned_numeral_digits(s@) == Some(d));
    }
    let mut v: u64 = 0;
    let mut i = start;
    proof {
        assert(cs@.subrange(start as int, start as int) =~= Seq::<char>::empty());
    }
    while i < n
        invariant
            start <= i <= n,
            n == cs@.len(),
            cs@ == s@,
            d == cs@.subrange(start as int, n as int),
            unsigned_numeral_digits(s@) == Some(d),
            all_digits(cs@.subrange(start as int, n as int)),
            v as nat == digits_value(cs@.subrange(start as int, i as int)),
        decreases n - i,
    {
        let c = cs[i];
        proof {
            assert(cs@.subrange(start as int, n as int)[i - start] == c);
            assert(cs@.subrange(start as int, i + 1) =~= cs@.subrange(start as int, i as int).push(
                c,
            ));
            lemma_digits_value_push(cs@.subrange(start as int, i as int), c);
        }
        let dig = (c as u64) - ('0' as u64);
        match v.checked_mul(10) {
            None => {
                proof {
                    crate::llm::decimal::lemma_digits_value_prefix_le(
                        cs@.subrange(start as int, n as int),
                        (i + 1 - start) as int,
                    );
                    assert(cs@.subrange(start as int, n as int).take((i + 1 - start) as int)
                        =~= cs@.subrange(start as int, i + 1));
                }
                return None;
            },
            Some(t) => match t.checked_add(dig) {
                None => {
                    proof {
                        crate::llm::decimal::lemma_digits_value_prefix_le(
                            cs@.subrange(start as int, n as int),
                            (i + 1 - start) as int,
                        );
                        assert(cs@.subrange(start as int, n as int).take((i + 1 - start) as int)
                            =~= cs@.subrange(start as int, i + 1));
                    }
                    return None;
                },
                Some(w) => {
                    v = w;
                },
            },
        }
        i = i + 1;
    }
    proof {
        assert(cs@.subrange(start as int, n as int) =~= d);
    }
    Some(v)
}

/// The wait a `Retry-After` header value asks for, in whole seconds bounded
/// to `[1, 30]`; `None` when the value is not a plain number of seconds.
pub fn retry_after_header_seconds(value: &str) -> (r: Option<u64>)
    ensures
        match parse_u64_spec(value@) {
            Some(v) => r == Some(clamp_nat(v, 1, 30) as u64),
            None => r is None,
        },
{
    match parse_u64(value) {
        None => None,
        Some(v) => if v < 1 {
            Some(1)
        } else if v > 30 {
            Some(30)
        } else {
            Some(v)
        },
    }
}

// ---------------------------------------------------------------------------
// Daily quotas.

pub open spec fn ascii_lower_char(c: char) -> char {
    if 'A' <= c && c <= 'Z' {
        ((c as u32) + 32) as char
    } else {
        c
    }
}

/// `s` with ASCII capitals lowered (std's `str::to_ascii_lowercase`).
pub open spec fn ascii_lower(s: Seq<char>) -> Seq<char> {
    Seq::new(s.len(), |i: int| ascii_lower_char(s[i]))
}

fn ascii_lower_exec(cs: &Vec<char>) -> (out: Vec<char>)
    ensures
        out@ == ascii_lower(cs@),
{
    let mut out: Vec<char> = Vec::new();
    let n = cs.len();
    let mut i: usize = 0;
    while i < n
        invariant
            n == cs@.len(),
            i <= n,
            out@ == ascii_lower(cs@).take(i as int),
        decreases n - i,
    {
        let c = cs[i];
        let l = if 'A' <= c && c <= 'Z' {
            ((c as u8) + 32) as char
        } else {
            c
        };
        proof {
            assert(ascii_lower(cs@).take(i + 1) =~= ascii_lower(cs@).take(i as int).push(
                ascii_lower_char(c),
            ));
        }
        out.push(l);
        i = i + 1;
    }
    proof {
        assert(ascii_lower(cs@).take(n as int) =~= ascii_lower(cs@));
    }
    out
}

pub open spec fn tpd_marker() -> Seq<char> {
    seq!['t', 'p', 'd']
}

pub open spec fn tokens_per_day_marker() -> Seq<char> {
    seq!['t', 'o', 'k', 'e', 'n', 's', ' ', 'p', 'e', 'r', ' ', 'd', 'a', 'y']
}

/// A reply body that reports an exhausted daily quota: it mentions "tpd" or
/// "tokens per day", ignoring ASCII case.
pub open spec fn is_daily_quota_spec(body: Seq<char>) -> bool {
    contains_seq(ascii_lower(body), tpd_marker()) || contains_seq(
        ascii_lower(body),
        tokens_per_day_marker(),
    )
}

/// Whether a rate-limited reply body reports an exhausted daily quota (which
/// no short retry can outwait) rather than a per-minute limit.
pub fn is_daily_quota_exceeded(body: &str) -> (r: bool)
    ensures
        r == is_daily_quota_spec(body@),
{
    let lower = ascii_lower_exec(&chars_of(body));
    let tpd = vec!['t', 'p', 'd'];
    let tpd_long = vec!['t', 'o', 'k', 'e', 'n', 's', ' ', 'p', 'e', 'r', ' ', 'd', 'a', 'y'];
    proof {
        assert(tpd@ =~= tpd_marker());
        assert(tpd_long@ =~= tokens_per_day_marker());
    }
    contains_chars(&lower, &tpd) || contains_chars(&lower, &tpd_long)
}

// ---------------------------------------------------------------------------
// Error messages.

/// The human-readable message of a provider error body: its
/// `error.message` string when present, the raw body otherwise.
pub fn extract_error_message(body: &str) -> (r: String)
    ensures
        r@ == match json_pointer_str(body@, "/error/message"@) {
            Some(m) => m,
            None => body@,
        },
{
    match json_string_at(body, "/error/message") {
        Some(m) => m,
        None => body.to_owned(),
    }
}

// ---------------------------------------------------------------------------
// Reply classification and retries.

/// What to do with a provider reply.
#[derive(Debug, Clone, PartialEq, Eq)]
pub enum ReplyStep {
    /// The reply is a success: read its JSON body.
    Accept,
    /// Wait `wait_ms` milliseconds, then send the request again as attempt
    /// `next_attempt`.
    Retry { wait_ms: u64, next_attempt: u32 },
    /// Give up with this error.
    Fail(LlmError),
}

/// A status in `200..=299`.
pub open spec fn is_success_status(status: u16) -> bool {
    200 <= status && status <= 299
}

/// The wait, in milliseconds, before retrying a rate-limited attempt: the
/// header's suggestion, else the body's, else 2.5 s; never less than the
/// attempt's backoff floor.
pub open spec fn rate_limit_wait_ms(attempt: nat, header_wait_ms: Option<u64>, body: Seq<char>)
    -> nat {
    let suggested: nat = match header_wait_ms {
        Some(w) => w as nat,
        None => match retry_after_millis_spec(body) {
            Some(ms) => ms,
            None => DEFAULT_RATE_LIMIT_WAIT_MS as nat,
        },
    };
    if suggested >= backoff_floor_ms(attempt) {
        suggested
    } else {
        backoff_floor_ms(attempt)
    }
}

/// The step a reply with `status` calls for, on attempt `attempt` (0 for the
/// first send), given the wait its `Retry-After` header asks for and its body
/// (read only for a non-success status).
pub open spec fn reply_step_spec(
    attempt: nat,
    status: u16,
    header_wait_ms: Option<u64>,
    body: Seq<char>,
) -> ReplyStepView {
    if status == 429 {
        if is_daily_quota_spec(body) {
            ReplyStepView::DailyQuota(
                match json_pointer_str(body, "/error/message"@) {
                    Some(m) => m,
                    None => body,
                },
            )
        } else if attempt < MAX_RETRIES {
            ReplyStepView::Retry {
                wait_ms: rate_limit_wait_ms(attempt, header_wait_ms, body),
                next_attempt: attempt + 1,
            }
        } else {
            ReplyStepView::Provider { status: 429, body }
        }
    } else if !is_success_status(status) {
        ReplyStepView::Provider { status, body }
    } else {
        ReplyStepView::Accept
    }
}

/// `ReplyStep` as mathematical values.
pub enum ReplyStepView {
    Accept,
    Retry { wait_ms: nat, next_attempt: nat },
    Provider { status: u16, body: Seq<char> },
    DailyQuota(Seq<char>),
}

impl ReplyStep {
    pub open spec fn view_as(self) -> ReplyStepView {
        match self {
            ReplyStep::Accept => ReplyStepView::Accept,
            ReplyStep::Retry { wait_ms, next_attempt } => ReplyStepView::Retry {
                wait_ms: wait_ms as nat,
                next_attempt: next_attempt as nat,
            },
            ReplyStep::Fail(LlmError::ProviderError { status, body }) => ReplyStepView::Provider {
                status,
                body: body@,
            },
            ReplyStep::Fail(LlmError::DailyQuotaExceeded(m)) => ReplyStepView::DailyQuota(m@),
            // Not produced by `reply_step`.
            ReplyStep::Fail(_) => ReplyStepView::Accept,
        }
    }
}

/// Decides what to do with a provider reply: a success is accepted; a 429 is
/// retried after a wait (at most `MAX_RETRIES` times) unless it reports an
/// exhausted daily quota; anything else fails with the status and body.
pub fn reply_step(attempt: u32, status: u16, header_wait_ms: Option<u64>, body: &str) -> (r:
    ReplyStep)
    requires
        attempt <= MAX_RETRIES,
    ensures
        r.view_as() == reply_step_spec(attempt as nat, status, header_wait_ms, body@),
        r matches ReplyStep::Fail(e) ==> (e is ProviderError || e is DailyQuotaExceeded),
{
    if status == 429 {
        if is_daily_quota_exceeded(body) {
            return ReplyStep::Fail(LlmError::DailyQuotaExceeded(extract_error_message(body)));
        }
        if attempt < MAX_RETRIES {
            let suggested: u64 = match header_wait_ms {
                Some(w) => w,
                None => match retry_after_millis_from_body(body) {
                    Some(ms) => ms,
                    None => DEFAULT_RATE_LIMIT_WAIT_MS,
                },
            };
            let floor = backoff_floor_exec(attempt);
            let wait = if suggested >= floor {
                suggested
            } else {
                floor
            };
            return ReplyStep::Retry { wait_ms: wait, next_attempt: attempt + 1 };
        }
        return ReplyStep::Fail(LlmError::ProviderError { status: 429, body: body.to_owned() });
    }
    if !(200 <= status && status <= 299) {
        return ReplyStep::Fail(LlmError::ProviderError { status, body: body.to_owned() });
    }
    ReplyStep::Accept
}

/// A rate-limited request is retried at most `MAX_RETRIES` times, each wait
/// at least the backoff floor of its attempt (1 s, 4 s, 10 s); a reply that
/// reports an exhausted daily quota is never retried; every other
/// non-success status fails at once.
pub proof fn lemma_retry_policy(attempt: nat, status: u16, header_wait_ms: Option<u64>, body: Seq<char>)
    requires
        attempt <= MAX_RETRIES,
    ensures
        (reply_step_spec(attempt, status, header_wait_ms, body) is Retry) ==> (status == 429
            && !is_daily_quota_spec(body) && attempt < MAX_RETRIES),
        (reply_step_spec(attempt, status, header_wait_ms, body) is Retry) ==> (reply_step_spec(
            attempt,
            status,
            header_wait_ms,
            body,
        )->next_attempt == attempt + 1),
        (reply_step_spec(attempt, status, header_wait_ms, body) is Retry) ==> (reply_step_spec(
            attempt,
            status,
            header_wait_ms,
            body,
        )->wait_ms >= backoff_floor_ms(attempt)),
        (status == 429 && is_daily_quota_spec(body)) ==> (reply_step_spec(
            attempt,
            status,
            header_wait_ms,
            body,
        ) is DailyQuota),
        (!is_success_status(status) && status != 429) ==> (reply_step_spec(
            attempt,
            status,
            header_wait_ms,
            body,
        ) == ReplyStepView::Provider { status, body }),
{
}

/// The wait before retrying a rate-limited reply: the `Retry-After`
/// header's wait when there is one, whatever the body says; else the body's
/// "try again in" hint; else 2.5 s. It is raised to the attempt's floor
/// (1 s, 4 s, then 10 s) when shorter.
pub proof fn lemma_retry_wait_prefers_the_header(
    attempt: nat,
    header_wait_ms: Option<u64>,
    body: Seq<char>,
)
    requires
        attempt < MAX_RETRIES,
        !is_daily_quota_spec(body),
    ensures
        ({
            let floor: nat = if attempt == 0 {
                1000
            } else if attempt == 1 {
                4000
            } else {
                10000
            };
            let suggested: nat = match header_wait_ms {
                Some(w) => w as nat,
                None => match retry_after_millis_spec(body) {
                    Some(ms) => ms,
                    None => 2500,
                },
            };
            reply_step_spec(attempt, 429, header_wait_ms, body) == ReplyStepView::Retry {
                wait_ms: if suggested >= floor {
                    suggested
                } else {
                    floor
                },
                next_attempt: attempt + 1,
            }
        }),
        forall|other: Seq<char>|
            #![trigger reply_step_spec(attempt, 429, header_wait_ms, other)]
            header_wait_ms is Some && !is_daily_quota_spec(other) ==> reply_step_spec(
                attempt,
                429,
                header_wait_ms,
                other,
            ) == reply_step_spec(attempt, 429, header_wait_ms, body),
{
}

/// A wait read from a reply body always lies within `[250 ms, 30 s]`.
pub proof fn lemma_body_hint_bounds(body: Seq<char>)
    ensures
        (retry_after_millis_spec(body) is Some) ==> (250 <= retry_after_millis_spec(body)->0
            <= 30000),
{
}

/// A parsed completion is usable only when it carries at least one choice.
pub fn accept_completion(resp: ChatCompletionResponse) -> (r: Result<
    ChatCompletionResponse,
    LlmError,
>)
    ensures
        resp.choices@.len() > 0 ==> r == Ok::<ChatCompletionResponse, LlmError>(resp),
        resp.choices@.len() == 0 ==> r == Err::<ChatCompletionResponse, LlmError>(
            LlmError::EmptyResponse,
        ),
{
    if resp.choices.len() == 0 {
        Err(LlmError::EmptyResponse)
    } else {
        Ok(resp)
    }
}

// ---------------------------------------------------------------------------
// Endpoint URLs.

/// Number of trailing '/' characters of `s`.
pub open spec fn trailing_slashes(s: Seq<char>) -> nat
    decreases s.len(),
{
    if s.len() > 0 && s.last() == '/' {
        1 + trailing_slashes(s.drop_last())
    } else {
        0
    }
}

/// `s` without its trailing '/' characters (std's `trim_end_matches('/')`).
pub open spec fn trim_slashes_spec(s: Seq<char>) -> Seq<char> {
    s.take(s.len() - trailing_slashes(s))
}

proof fn lemma_trailing_slashes(s: Seq<char>, k: int)
    requires
        0 <= k <= s.len(),
        forall|j: int| s.len() - k <= j < s.len() ==> #[trigger] s[j] == '/',
        k == s.len() || s[s.len() - k - 1] != '/',
    ensures
        trailing_slashes(s) == k,
    decreases k,
{
    if k > 0 {
        let t = s.drop_last();
        assert forall|j: int| t.len() - (k - 1) <= j < t.len() implies #[trigger] t[j] == '/' by {
            assert(t[j] == s[j]);
        }
        if k - 1 < t.len() {
            assert(t[t.len() - (k - 1) - 1] == s[s.len() - k - 1]);
        }
        lemma_trailing_slashes(t, k - 1);
    }
}

/// A base URL without trailing slashes.
pub fn trim_trailing_slashes(s: &str) -> (r: String)
    ensures
        r@ == trim_slashes_spec(s@),
{
    let cs = chars_of(s);
    let n = cs.len();
    let mut k: usize = 0;
    while k < n && cs[n - k - 1] == '/'
        invariant
            n == cs@.len(),
            k <= n,
            forall|j: int| n - k <= j < n ==> #[trigger] cs@[j] == '/',
        decreases n - k,
    {
        k = k + 1;
    }
    proof {
        lemma_trailing_slashes(cs@, k as int);
    }
    let kept = slice_chars(&cs, 0, n - k);
    proof {
        assert(cs@.take(n - k) =~= kept@);
    }
    crate::text::string_from_chars(&kept)
}

/// The chat-completions endpoint under a (trimmed) base URL.
pub fn chat_completions_url(base_url: &str) -> (r: String)
    ensures
        r@ == base_url@ + "/chat/completions"@,
{
    let mut r = String::from_str(base_url);
    r.append("/chat/completions");
    r
}

/// The model-listing endpoint of a provider: its base URL without trailing
/// slashes, then "/models".
pub fn models_url(base_url: &str) -> (r: String)
    ensures
        r@ == trim_slashes_spec(base_url@) + "/models"@,
{
    let mut r = trim_trailing_slashes(base_url);
    r.append("/models");
    r
}

// ---------------------------------------------------------------------------
// Model lists.

/// `a` sorts strictly before `b`: lexicographically by character, which is
/// the order of `String` (UTF-8 bytes compare as their code points do).
pub open spec fn lex_lt(a: Seq<char>, b: Seq<char>) -> bool
    decreases a.len(),
{
    if a.len() == 0 {
        b.len() > 0
    } else if b.len() == 0 {
        false
    } else if a[0] < b[0] {
        true
    } else if a[0] > b[0] {
        false
    } else {
        lex_lt(a.drop_first(), b.drop_first())
    }
}

pub open spec fn lex_le(a: Seq<char>, b: Seq<char>) -> bool {
    !lex_lt(b, a)
}

pub proof fn lemma_lex_lt_asymmetric(a: Seq<char>, b: Seq<char>)
    ensures
        lex_lt(a, b) ==> !lex_lt(b, a),
    decreases a.len(),
{
    if a.len() > 0 && b.len() > 0 && a[0] == b[0] {
        lemma_lex_lt_asymmetric(a.drop_first(), b.drop_first());
    }
}

/// Each string sorts no later than the next.
pub open spec fn sorted_lex(s: Seq<Seq<char>>) -> bool {
    forall|i: int, j: int| 0 <= i && j == i + 1 && j < s.len() ==> #[trigger] lex_le(s[i], s[j])
}

pub open spec fn string_views(s: Seq<String>) -> Seq<Seq<char>> {
    s.map_values(|x: String| x@)
}

fn lex_lt_exec(a: &Vec<char>, b: &Vec<char>) -> (r: bool)
    ensures
        r == lex_lt(a@, b@),
{
    let mut k: usize = 0;
    proof {
        assert(a@.skip(0) =~= a@);
        assert(b@.skip(0) =~= b@);
    }
    loop
        invariant
            k <= a@.len(),
            k <= b@.len(),
            lex_lt(a@, b@) == lex_lt(a@.skip(k as int), b@.skip(k as int)),
        decreases a@.len() - k,
    {
        if k == a.len() {
            return k < b.len();
        }
        if k == b.len() {
            return false;
        }
        if a[k] < b[k] {
            return true;
        }
        if a[k] > b[k] {
            return false;
        }
        proof {
            assert(a@.skip(k as int).drop_first() =~= a@.skip(k + 1));
            assert(b@.skip(k as int).drop_first() =~= b@.skip(k + 1));
        }
        k = k + 1;
    }
}

/// The first position in `out` whose string sorts after `x`, or the end.
fn insertion_point(out: &Vec<String>, x: &Vec<char>) -> (p: usize)
    ensures
        p <= out@.len(),
        forall|q: int| 0 <= q < p ==> !lex_lt(x@, #[trigger] out@[q]@),
        p < out@.len() ==> lex_lt(x@, out@[p as int]@),
{
    let n = out.len();
    let mut q: usize = 0;
    while q < n
        invariant
            n == out@.len(),
            q <= n,
            forall|r: int| 0 <= r < q ==> !lex_lt(x@, #[trigger] out@[r]@),
        decreases n - q,
    {
        let y = chars_of(out[q].as_str());
        if lex_lt_exec(x, &y) {
            return q;
        }
        q = q + 1;
    }
    n
}

/// Model ids in ascending order: the same ids, each sorting no later than
/// the next.
pub fn sort_model_ids(ids: Vec<String>) -> (r: Vec<String>)
    ensures
        sorted_lex(string_views(r@)),
        string_views(r@).to_multiset() == string_views(ids@).to_multiset(),
{
    broadcast use vstd::seq_lib::group_to_multiset_ensures;

    let mut out: Vec<String> = Vec::new();
    let n = ids.len();
    let mut k: usize = 0;
    proof {
        assert(string_views(ids@.take(0)) =~= Seq::<Seq<char>>::empty());
        assert(string_views(out@) =~= Seq::<Seq<char>>::empty());
    }
    while k < n
        invariant
            n == ids@.len(),
            k <= n,
            sorted_lex(string_views(out@)),
            string_views(out@).to_multiset() == string_views(ids@.take(k as int)).to_multiset(),
        decreases n - k,
    {
        let x = ids[k].clone();
        let xs = chars_of(x.as_str());
        let p = insertion_point(&out, &xs);
        let ghost old_v = string_views(out@);
        out.insert(p, x);
        proof {
            let xv = ids@[k as int]@;
            assert(string_views(out@) =~= old_v.insert(p as int, xv));
            assert(string_views(ids@.take(k + 1)) =~= string_views(ids@.take(k as int)).push(xv));
            vstd::seq_lib::to_multiset_insert(old_v, p as int, xv);
            vstd::seq_lib::to_multiset_build(string_views(ids@.take(k as int)), xv);
            let t = string_views(out@);
            assert forall|i: int, j: int| 0 <= i && j == i + 1 && j < t.len() implies #[trigger] lex_le(
                t[i],
                t[j],
            ) by {
                if j < p {
                    assert(t[i] == old_v[i] && t[j] == old_v[j]);
                } else if j == p {
                    assert(t[i] == old_v[i]);
                    assert(old_v[i] == out@[i]@);
                } else if i == p {
                    assert(t[j] == old_v[p as int]);
                    lemma_lex_lt_asymmetric(xv, old_v[p as int]);
                } else {
                    assert(t[i] == old_v[i - 1] && t[j] == old_v[j - 1]);
                }
            }
        }
        k = k + 1;
    }
    proof {
        assert(ids@.take(n as int) =~= ids@);
    }
    out
}

// ---------------------------------------------------------------------------
// Authorization and the model listing.

/// The value of the `Authorization` header of a provider request: `Bearer`
/// and the key when there is one (as `reqwest`'s `bearer_auth` sends it),
/// no header otherwise.
pub fn authorization_value(api_key: Option<&str>) -> (r: Option<String>)
    ensures
        match api_key {
            Some(k) => r matches Some(v) && v@ == "Bearer "@ + k@,
            None => r is None,
        },
{
    match api_key {
        Some(k) => {
            let mut v = String::from_str("Bearer ");
            v.append(k);
            Some(v)
        },
        None => None,
    }
}

/// The outcome of a model-listing request, given the reply's status, its
/// body text and, for a success, the model ids the body lists (or why they
/// could not be read): a non-success status is a provider error carrying
/// the body; a success gives the ids sorted, none lost or added.
pub fn models_outcome(status: u16, body: String, ids: Result<Vec<String>, String>) -> (r: Result<
    Vec<String>,
    LlmError,
>)
    ensures
        !(200 <= status <= 299) ==> r == Err::<Vec<String>, LlmError>(
            LlmError::ProviderError { status, body },
        ),
        200 <= status <= 299 ==> match ids {
            Err(m) => r == Err::<Vec<String>, LlmError>(LlmError::Request(m)),
            Ok(v) => r matches Ok(out) && sorted_lex(string_views(out@)) && string_views(
                out@,
            ).to_multiset() == string_views(v@).to_multiset(),
        },
{
    if !(200 <= status && status <= 299) {
        return Err(LlmError::ProviderError { status, body });
    }
    match ids {
        Err(m) => Err(LlmError::Request(m)),
        Ok(v) => Ok(sort_model_ids(v)),
    }
}

} // verus!
