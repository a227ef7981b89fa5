//! Human-readable sizes and content digests of files.
use vstd::prelude::*;
use crate::text::{decimal, push_decimal, string_push};
use sha2::Digest;

verus! {

/// The SHA-256 digest of a byte sequence.
pub uninterp spec fn sha256(data: Seq<u8>) -> Seq<u8>;

/// Trusted: calls `sha2::Sha256::digest` (the `Digest` trait's one-shot
/// hash), which returns the 32-byte SHA-256 digest of `data`; the contract
/// claims only that the result is a function of the bytes hashed.
#[verifier::external_body]
fn sha256_digest(data: &[u8]) -> (r: [u8; 32])
    ensures
        r@ == sha256(data@),
{
    sha2::Sha256::digest(data).into()
}

/// The digest of a sample of a file's content: the bytes `head` followed by
/// the bytes `tail` (empty when the whole file is in `head`).
pub fn sample_digest(head: &[u8], tail: &[u8]) -> (r: [u8; 32])
    ensures
        r@ == sha256(head@ + tail@),
{
    let mut all: Vec<u8> = Vec::new();
    let n = head.len();
    let mut i: usize = 0;
    while i < n
        invariant
            n == head@.len(),
            i <= n,
            all@ == head@.take(i as int),
        decreases n - i,
    {
        all.push(head[i]);
        proof {
            assert(head@.take(i + 1) =~= head@.take(i as int).push(head@[i as int]));
        }
        i = i + 1;
    }
    proof {
        assert(head@.take(n as int) =~= head@);
        assert(all@ =~= head@ + tail@.take(0));
    }
    let m = tail.len();
    let mut j: usize = 0;
    while j < m
        invariant
            m == tail@.len(),
            j <= m,
            all@ == head@ + tail@.take(j as int),
        decreases m - j,
    {
        all.push(tail[j]);
        proof {
            assert(head@ + tail@.take(j + 1) =~= (head@ + tail@.take(j as int)).push(tail@[j as int]));
        }
        j = j + 1;
    }
    proof {
        assert(head@ + tail@.take(m as int) =~= head@ + tail@);
        assert(all@ =~= head@ + tail@);
    }
    sha256_digest(all.as_slice())
}

/// `2` raised to the power `s`.
pub open spec fn two_pow(s: nat) -> nat
    decreases s,
{
    if s == 0 {
        1
    } else {
        2 * two_pow((s - 1) as nat)
    }
}

/// Below this bound (2^53) every integer is exactly a double.
pub open spec fn exact_double_bound() -> nat {
    9007199254740992
}

/// How many low bits of `b` a double cannot hold: the exponent of the
/// spacing between doubles next to `b`.
pub open spec fn double_shift(b: nat) -> nat
    decreases b,
{
    if b < exact_double_bound() {
        0
    } else {
        1 + double_shift(b / 2)
    }
}

/// `n / d` rounded to the nearest integer, ties to the even one.
pub open spec fn round_half_even(n: nat, d: nat) -> nat {
    let q = n / d;
    let r = n % d;
    if 2 * r > d || (2 * r == d && q % 2 == 1) {
        q + 1
    } else {
        q
    }
}

/// The value of the double nearest to `b` (what `b as f64` holds).
pub open spec fn as_double(b: nat) -> nat {
    let d = two_pow(double_shift(b));
    round_half_even(b, d) * d
}

/// `b / unit` in tenths, rounded to the nearest tenth, ties to even: the
/// digits that `{:.1}` prints for the double `b as f64 / unit as f64`.
pub open spec fn tenths(b: nat, unit: nat) -> nat {
    round_half_even(as_double(b) * 10, unit)
}

/// A count of tenths written with one decimal place.
pub open spec fn one_decimal(t: nat) -> Seq<char> {
    decimal(t / 10).push('.') + decimal(t % 10)
}

pub open spec fn kib() -> nat {
    1024
}

pub open spec fn mib() -> nat {
    1048576
}

pub open spec fn gib() -> nat {
    1073741824
}

/// The text that `format_size` gives for a size in bytes.
pub open spec fn size_text(b: nat) -> Seq<char> {
    if b >= gib() {
        one_decimal(tenths(b, gib())).push('G')
    } else if b >= mib() {
        one_decimal(tenths(b, mib())).push('M')
    } else if b >= kib() {
        one_decimal(tenths(b, kib())).push('K')
    } else {
        decimal(b).push('B')
    }
}

proof fn lemma_small_is_exact(b: nat)
    requires
        b < exact_double_bound(),
    ensures
        as_double(b) == b,
{
    assert(double_shift(b) == 0);
    assert(two_pow(0) == 1);
}

proof fn lemma_round_bounds(n: nat, d: nat)
    requires
        d > 0,
    ensures
        round_half_even(n, d) * d <= n + d,
        round_half_even(n, d) <= n / d + 1,
{
    let q = n / d;
    let r = n % d;
    assert(q * d + r == n) by (nonlinear_arith)
        requires
            d > 0,
            q == n / d,
            r == n % d,
    ;
    assert((q + 1) * d == q * d + d) by (nonlinear_arith);
}

proof fn lemma_half_step(b: nat, d: nat, t: nat)
    requires
        d > 0,
        t == b / d,
    ensures
        t / 2 == b / (d * 2),
{
    vstd::arithmetic::div_mod::lemma_div_denominator(b as int, d as int, 2);
}

proof fn lemma_quotient_positive(b: nat, d: nat)
    requires
        d > 0,
        b / d >= 1,
    ensures
        d <= b,
{
    assert(d <= b) by (nonlinear_arith)
        requires
            d > 0,
            b / d >= 1,
    ;
}

/// The value of `b as f64`, an integer since `b` is one.
fn double_value(b: u64) -> (x: u128)
    ensures
        x == as_double(b as nat),
        x <= 2 * (b as nat) + 1,
{
    let mut t: u128 = b as u128;
    let mut d: u128 = 1;
    let ghost mut s: nat = 0;
    while t >= 9007199254740992
        invariant
            d > 0,
            d == two_pow(s),
            t == (b as nat) / (d as nat),
            double_shift(b as nat) == s + double_shift(t as nat),
            d <= b as nat + 1,
        decreases t,
    {
        proof {
            lemma_half_step(b as nat, d as nat, t as nat);
            assert(t / 2 >= 1);
            lemma_quotient_positive(b as nat, (d * 2) as nat);
        }
        t = t / 2;
        d = d * 2;
        proof {
            s = s + 1;
        }
    }
    let bb = b as u128;
    let q = bb / d;
    let r = bb % d;
    let up = 2 * r > d || (2 * r == d && q % 2 == 1);
    let k = if up { q + 1 } else { q };
    proof {
        lemma_round_bounds(b as nat, d as nat);
        assert(k == round_half_even(b as nat, d as nat));
        assert(k * d <= b + d);
    }
    k * d
}

/// Rounds `x * 10 / unit` to the nearest integer, ties to even.
fn tenths_of(x: u128, unit: u128) -> (t: u128)
    requires
        0 < unit <= 1073741824,
        x <= 36893488147419103233,
    ensures
        t == round_half_even((x * 10) as nat, unit as nat),
{
    let n = x * 10;
    let q = n / unit;
    let r = n % unit;
    if 2 * r > unit || (2 * r == unit && q % 2 == 1) {
        proof {
            assert(q <= n);
        }
        q + 1
    } else {
        q
    }
}

fn push_one_decimal(s: &mut String, t: u128)
    ensures
        final(s)@ == old(s)@ + one_decimal(t as nat),
{
    push_decimal(s, t / 10);
    string_push(s, '.');
    push_decimal(s, t % 10);
    proof {
        assert(final(s)@ =~= old(s)@ + one_decimal(t as nat));
    }
}

/// Writes a size in bytes for people: `B` below one KiB, else KiB, MiB or
/// GiB with one decimal place.
pub fn format_size(bytes: u64) -> (r: String)
    ensures
        r@ == size_text(bytes as nat),
{
    let mut s = String::new();
    if bytes >= 1073741824 {
        let x = double_value(bytes);
        push_one_decimal(&mut s, tenths_of(x, 1073741824));
        string_push(&mut s, 'G');
    } else if bytes >= 1048576 {
        proof {
            lemma_small_is_exact(bytes as nat);
        }
        push_one_decimal(&mut s, tenths_of(bytes as u128, 1048576));
        string_push(&mut s, 'M');
    } else if bytes >= 1024 {
        proof {
            lemma_small_is_exact(bytes as nat);
        }
        push_one_decimal(&mut s, tenths_of(bytes as u128, 1024));
        string_push(&mut s, 'K');
    } else {
        push_decimal(&mut s, bytes as u128);
        string_push(&mut s, 'B');
    }
    proof {
        assert(s@ =~= size_text(bytes as nat));
    }
    s
}

} // verus!
