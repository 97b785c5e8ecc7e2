//! Exact arithmetic on decimal numerals made of ASCII digits and at most one
//! '.', as they appear in providers' "try again in ..." hints.
use vstd::prelude::*;
use vstd::arithmetic::div_mod::lemma_fundamental_div_mod_converse;

verus! {

pub open spec fn is_ascii_digit(c: char) -> bool {
    '0' <= c && c <= '9'
}

pub open spec fn digit_value(c: char) -> nat {
    (c as nat - '0' as nat) as nat
}

pub open spec fn all_digits(s: Seq<char>) -> bool {
    forall|i: int| 0 <= i < s.len() ==> is_ascii_digit(#[trigger] s[i])
}

pub open spec fn pow10(n: nat) -> nat
    decreases n,
{
    if n == 0 {
        1
    } else {
        10 * pow10((n - 1) as nat)
    }
}

/// The number a run of decimal digits spells, most significant first.
pub open spec fn digits_value(s: Seq<char>) -> nat
    decreases s.len(),
{
    if s.len() == 0 {
        0
    } else {
        digit_value(s[0]) * pow10((s.len() - 1) as nat) + digits_value(s.drop_first())
    }
}

/// `c` occurs in `s`.
pub open spec fn has_char(s: Seq<char>, c: char) -> bool {
    exists|i: int| 0 <= i < s.len() && s[i] == c
}

/// `i` is the first position of `c` in `s`.
pub open spec fn first_index_is(s: Seq<char>, c: char, i: int) -> bool {
    0 <= i < s.len() && s[i] == c && forall|j: int| 0 <= j < i ==> s[j] != c
}

/// The first position of `c` in `s` (meaningful when `has_char(s, c)`).
pub open spec fn first_index(s: Seq<char>, c: char) -> int {
    choose|i: int| first_index_is(s, c, i)
}

/// The digits before the '.' of a numeral (all of it when there is no '.').
pub open spec fn int_part(s: Seq<char>) -> Seq<char> {
    if has_char(s, '.') {
        s.take(first_index(s, '.'))
    } else {
        s
    }
}

/// The digits after the '.' of a numeral (none when there is no '.').
pub open spec fn frac_part(s: Seq<char>) -> Seq<char> {
    if has_char(s, '.') {
        s.skip(first_index(s, '.') + 1)
    } else {
        Seq::empty()
    }
}

/// A numeral that std's `f64` parser accepts, among those made only of digits
/// and '.': at most one '.', and at least one digit.
pub open spec fn is_plain_decimal(s: Seq<char>) -> bool {
    &&& all_digits(int_part(s))
    &&& all_digits(frac_part(s))
    &&& int_part(s).len() + frac_part(s).len() > 0
}

/// `s` followed by enough '0' characters to reach length `n`.
pub open spec fn pad_zeros(s: Seq<char>, n: nat) -> Seq<char> {
    s + Seq::new((n - s.len()) as nat, |i: int| '0')
}

pub open spec fn max_nat(a: nat, b: nat) -> nat {
    if a >= b {
        a
    } else {
        b
    }
}

/// Whole milliseconds in `0.fm` minutes plus `0.fs` seconds, rounded down.
pub open spec fn fraction_millis(fm: Seq<char>, fs: Seq<char>) -> nat {
    let n = max_nat(fm.len(), fs.len());
    (60000 * digits_value(pad_zeros(fm, n)) + 1000 * digits_value(pad_zeros(fs, n))) / pow10(n)
}

/// Whole milliseconds in `minutes` minutes plus `seconds` seconds, both
/// decimal numerals, rounded down.
pub open spec fn decimal_millis(minutes: Seq<char>, seconds: Seq<char>) -> nat {
    60000 * digits_value(int_part(minutes)) + 1000 * digits_value(int_part(seconds))
        + fraction_millis(frac_part(minutes), frac_part(seconds))
}

pub proof fn lemma_pow10_positive(n: nat)
    ensures
        pow10(n) >= 1,
    decreases n,
{
    if n > 0 {
        lemma_pow10_positive((n - 1) as nat);
    }
}

/// Appending a digit shifts the value one place.
pub proof fn lemma_digits_value_push(s: Seq<char>, c: char)
    ensures
        digits_value(s.push(c)) == digits_value(s) * 10 + digit_value(c),
    decreases s.len(),
{
    let t = s.push(c);
    if s.len() == 0 {
        assert(t.drop_first() =~= Seq::<char>::empty());
        assert(t[0] == c);
        assert(pow10(0) == 1);
        assert(digits_value(t) == digit_value(c) * pow10(0) + digits_value(t.drop_first()));
    } else {
        let s1 = s.drop_first();
        assert(t.drop_first() =~= s1.push(c));
        assert(t[0] == s[0]);
        lemma_digits_value_push(s1, c);
        let p = pow10((s.len() - 1) as nat);
        assert(pow10(s.len() as nat) == 10 * p);
        assert(digits_value(t) == digit_value(s[0]) * pow10(s.len() as nat) + digits_value(
            s1.push(c),
        ));
        assert(digits_value(s) == digit_value(s[0]) * p + digits_value(s1));
        assert(digit_value(s[0]) * (10 * p) + (digits_value(s1) * 10 + digit_value(c)) == (
        digit_value(s[0]) * p + digits_value(s1)) * 10 + digit_value(c)) by (nonlinear_arith);
    }
}

/// A prefix of a digit run never spells more than the whole run.
pub proof fn lemma_digits_value_prefix_le(s: Seq<char>, k: int)
    requires
        0 <= k <= s.len(),
    ensures
        digits_value(s.take(k)) <= digits_value(s),
    decreases s.len() - k,
{
    if k < s.len() {
        lemma_digits_value_prefix_le(s, k + 1);
        assert(s.take(k + 1) =~= s.take(k).push(s[k]));
        lemma_digits_value_push(s.take(k), s[k]);
    } else {
        assert(s.take(k) =~= s);
    }
}

/// A digit run stands below the next power of ten.
pub proof fn lemma_digits_value_bound(s: Seq<char>)
    requires
        all_digits(s),
    ensures
        digits_value(s) < pow10(s.len()),
    decreases s.len(),
{
    if s.len() > 0 {
        let t = s.drop_first();
        assert(all_digits(t)) by {
            assert forall|i: int| 0 <= i < t.len() implies is_ascii_digit(#[trigger] t[i]) by {
                assert(t[i] == s[i + 1]);
            }
        }
        lemma_digits_value_bound(t);
        assert(is_ascii_digit(s[0]));
        let p = pow10((s.len() - 1) as nat);
        assert(digit_value(s[0]) <= 9);
        assert(digit_value(s[0]) * p + digits_value(t) < 10 * p) by (nonlinear_arith)
            requires
                digit_value(s[0]) <= 9,
                digits_value(t) < p,
        ;
    }
}

/// Value of a digit run, capped at `cap`.
pub fn digits_value_capped(ds: &Vec<char>, from: usize, to: usize, cap: u64) -> (v: u64)
    requires
        from <= to <= ds@.len(),
        all_digits(ds@.subrange(from as int, to as int)),
        cap <= 1_000_000,
    ensures
        v as nat == if digits_value(ds@.subrange(from as int, to as int)) < cap {
            digits_value(ds@.subrange(from as int, to as int))
        } else {
            cap as nat
        },
{
    let mut v: u64 = 0;
    let mut i = from;
    proof {
        assert(ds@.subrange(from as int, from as int) =~= Seq::<char>::empty());
    }
    while i < to
        invariant
            from <= i <= to,
            to <= ds@.len(),
            cap <= 1_000_000,
            all_digits(ds@.subrange(from as int, to as int)),
            v as nat == if digits_value(ds@.subrange(from as int, i as int)) < cap {
                digits_value(ds@.subrange(from as int, i as int))
            } else {
                cap as nat
            },
        decreases to - i,
    {
        let c = ds[i];
        proof {
            assert(ds@.subrange(from as int, to as int)[i - from] == c);
        }
        let d = (c as u64) - ('0' as u64);
        let ghost old_prefix = ds@.subrange(from as int, i as int);
        proof {
            assert(ds@.subrange(from as int, i + 1) =~= old_prefix.push(c));
            lemma_digits_value_push(old_prefix, c);
        }
        let next = v * 10 + d;
        if next < cap {
            v = next;
        } else {
            v = cap;
        }
        i = i + 1;
    }
    v
}

/// The characters of `s` padded with '0' to `n`, as digit values.
fn padded_digits(s: &Vec<char>, n: usize) -> (out: Vec<u64>)
    requires
        s@.len() <= n,
        all_digits(s@),
    ensures
        out@.len() == n,
        forall|i: int| 0 <= i < n ==> #[trigger] out@[i] as nat == digit_value(pad_zeros(s@, n as nat)[i]),
        forall|i: int| 0 <= i < n ==> #[trigger] out@[i] <= 9,
{
    let mut out: Vec<u64> = Vec::new();
    let mut i: usize = 0;
    while i < n
        invariant
            i <= n,
            s@.len() <= n,
            all_digits(s@),
            out@.len() == i,
            forall|k: int| 0 <= k < i ==> #[trigger] out@[k] as nat == digit_value(pad_zeros(s@, n as nat)[k]),
            forall|k: int| 0 <= k < i ==> #[trigger] out@[k] <= 9,
        decreases n - i,
    {
        if i < s.len() {
            let c = s[i];
            assert(is_ascii_digit(s@[i as int]));
            out.push((c as u64) - ('0' as u64));
        } else {
            out.push(0);
        }
        i = i + 1;
    }
    out
}

/// `digits_value` of the suffix `s[i..]` in terms of `s[i]` and `s[i + 1..]`.
proof fn lemma_suffix_step(s: Seq<char>, i: int)
    requires
        0 <= i < s.len(),
    ensures
        digits_value(s.subrange(i, s.len() as int)) == digit_value(s[i]) * pow10(
            (s.len() - i - 1) as nat,
        ) + digits_value(s.subrange(i + 1, s.len() as int)),
{
    let t = s.subrange(i, s.len() as int);
    assert(t.drop_first() =~= s.subrange(i + 1, s.len() as int));
    assert(t[0] == s[i]);
}

/// Whole milliseconds in `0.fm` minutes plus `0.fs` seconds, rounded down.
pub fn fraction_millis_exec(fm: &Vec<char>, fs: &Vec<char>) -> (r: u64)
    requires
        all_digits(fm@),
        all_digits(fs@),
    ensures
        r as nat == fraction_millis(fm@, fs@),
        r <= 61000,
{
    let n: usize = if fm.len() >= fs.len() {
        fm.len()
    } else {
        fs.len()
    };
    let u = padded_digits(fm, n);
    let v = padded_digits(fs, n);
    let ghost pu = pad_zeros(fm@, n as nat);
    let ghost pv = pad_zeros(fs@, n as nat);
    let mut carry: u64 = 0;
    let mut i: usize = n;
    let ghost mut rem: nat = 0;
    proof {
        assert(pu.subrange(n as int, n as int) =~= Seq::<char>::empty());
        assert(pv.subrange(n as int, n as int) =~= Seq::<char>::empty());
    }
    while i > 0
        invariant
            i <= n,
            u@.len() == n,
            v@.len() == n,
            pu.len() == n,
            pv.len() == n,
            forall|k: int| 0 <= k < n ==> #[trigger] u@[k] as nat == digit_value(pu[k]),
            forall|k: int| 0 <= k < n ==> #[trigger] u@[k] <= 9,
            forall|k: int| 0 <= k < n ==> #[trigger] v@[k] as nat == digit_value(pv[k]),
            forall|k: int| 0 <= k < n ==> #[trigger] v@[k] <= 9,
            carry <= 61000,
            rem < pow10((n - i) as nat),
            60000 * digits_value(pu.subrange(i as int, n as int)) + 1000 * digits_value(
                pv.subrange(i as int, n as int),
            ) == carry * pow10((n - i) as nat) + rem,
        decreases i,
    {
        let du = u[i - 1];
        let dv = v[i - 1];
        let t = 60000 * du + 1000 * dv + carry;
        let next_carry = t / 10;
        let digit = t % 10;
        proof {
            let p = pow10((n - i) as nat);
            let q = pow10((n - i + 1) as nat);
            lemma_suffix_step(pu, i - 1);
            lemma_suffix_step(pv, i - 1);
            assert(q == 10 * p);
            let a = digits_value(pu.subrange(i as int, n as int));
            let b = digits_value(pv.subrange(i as int, n as int));
            let a2 = digits_value(pu.subrange(i - 1, n as int));
            let b2 = digits_value(pv.subrange(i - 1, n as int));
            assert(u@[i - 1] as nat == digit_value(pu[i - 1]));
            assert(v@[i - 1] as nat == digit_value(pv[i - 1]));
            assert(a2 == du * p + a);
            assert(b2 == dv * p + b);
            assert(60000 * (du * p + a) + 1000 * (dv * p + b) == p * (t as int) + rem)
                by (nonlinear_arith)
                requires
                    t == 60000 * du + 1000 * dv + carry,
                    60000 * a + 1000 * b == carry * p + rem,
            ;
            assert(p * (t as int) == q * next_carry + p * digit) by (nonlinear_arith)
                requires
                    t == 10 * next_carry + digit,
                    q == 10 * p,
            ;
            assert(p * digit + rem < q) by (nonlinear_arith)
                requires
                    digit <= 9,
                    rem < p,
                    q == 10 * p,
            ;
            rem = (p * digit + rem) as nat;
            assert(60000 * a2 + 1000 * b2 == next_carry * q + rem);
        }
        carry = next_carry;
        i = i - 1;
    }
    proof {
        let p = pow10(n as nat);
        lemma_pow10_positive(n as nat);
        assert(pu.subrange(0, n as int) =~= pu);
        assert(pv.subrange(0, n as int) =~= pv);
        lemma_fundamental_div_mod_converse(
            (60000 * digits_value(pu) + 1000 * digits_value(pv)) as int,
            p as int,
            carry as int,
            rem as int,
        );
    }
    carry
}

} // verus!
