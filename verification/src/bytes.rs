//! Big-endian byte strings read as natural numbers, and the facts about
//! them that the field arithmetic and the encodings rely on.
use vstd::prelude::*;

verus! {

/// `256^k`.
pub open spec fn pow256(k: nat) -> nat
    decreases k,
{
    if k == 0 {
        1
    } else {
        256 * pow256((k - 1) as nat)
    }
}

/// The natural number that `s` denotes when read as big-endian base-256 digits.
pub open spec fn be_value(s: Seq<u8>) -> nat
    decreases s.len(),
{
    if s.len() == 0 {
        0
    } else {
        s[0] as nat * pow256((s.len() - 1) as nat) + be_value(s.drop_first())
    }
}

/// `n` modulo `256^k`: the digits of `n` below position `k`.
pub open spec fn low_digits(n: nat, k: nat) -> nat {
    n % pow256(k)
}

/// The `k`-byte big-endian encoding of `n` (taken modulo `256^k`).
pub open spec fn be_bytes(n: nat, k: nat) -> Seq<u8>
    decreases k,
{
    if k == 0 {
        seq![]
    } else {
        seq![((n / pow256((k - 1) as nat)) % 256) as u8] + be_bytes(
            low_digits(n, (k - 1) as nat),
            (k - 1) as nat,
        )
    }
}

/// A big-endian encoding without superfluous leading zero bytes: a single
/// byte (possibly zero), or a first byte that is not zero.
pub open spec fn is_minimal_be(s: Seq<u8>) -> bool {
    s.len() >= 1 && (s.len() == 1 || s[0] != 0)
}

/// `k` zero bytes.
pub open spec fn zeros(k: nat) -> Seq<u8> {
    Seq::new(k, |i: int| 0u8)
}

/// Every byte of `s` is zero.
pub open spec fn all_zero(s: Seq<u8>) -> bool {
    forall|i: int| 0 <= i < s.len() ==> s[i] == 0
}

pub proof fn lemma_pow256_positive(k: nat)
    ensures
        pow256(k) > 0,
    decreases k,
{
    if k > 0 {
        lemma_pow256_positive((k - 1) as nat);
    }
}

pub proof fn lemma_pow256_monotone(a: nat, b: nat)
    requires
        a <= b,
    ensures
        pow256(a) <= pow256(b),
    decreases b,
{
    if a < b {
        lemma_pow256_monotone(a, (b - 1) as nat);
        lemma_pow256_positive((b - 1) as nat);
    }
}

/// A `k`-byte string denotes a number below `256^k`.
pub proof fn lemma_be_value_bound(s: Seq<u8>)
    ensures
        be_value(s) < pow256(s.len()),
    decreases s.len(),
{
    if s.len() > 0 {
        let k = (s.len() - 1) as nat;
        lemma_be_value_bound(s.drop_first());
        assert(s[0] as nat * pow256(k) <= 255 * pow256(k)) by (nonlinear_arith)
            requires
                s[0] <= 255,
        ;
    }
}

/// The leading byte alone weighs at least `s[0] * 256^(len - 1)`.
pub proof fn lemma_be_value_lower(s: Seq<u8>)
    requires
        s.len() > 0,
    ensures
        be_value(s) >= s[0] as nat * pow256((s.len() - 1) as nat),
{
}

pub proof fn lemma_be_bytes_len(n: nat, k: nat)
    ensures
        be_bytes(n, k).len() == k,
    decreases k,
{
    if k > 0 {
        let j = (k - 1) as nat;
        lemma_be_bytes_len(n % pow256(j), j);

    }
}

/// Reading a string and encoding the value again at the same width gives the string back.
pub proof fn lemma_be_bytes_of_value(s: Seq<u8>)
    ensures
        be_bytes(be_value(s), s.len()) == s,
    decreases s.len(),
{
    if s.len() > 0 {
        let k = (s.len() - 1) as nat;
        let rest = s.drop_first();
        let p = pow256(k);
        lemma_pow256_positive(k);
        lemma_be_value_bound(rest);
        lemma_be_bytes_of_value(rest);
        let v = be_value(s);
        assert(v == s[0] as nat * p + be_value(rest));
        vstd::arithmetic::div_mod::lemma_fundamental_div_mod_converse(
            v as int,
            p as int,
            s[0] as int,
            be_value(rest) as int,
        );
        assert(v / p == s[0] as nat);
        assert(v % p == be_value(rest));
        assert((s[0] as nat) % 256 == s[0] as nat);
        assert(be_bytes(v, s.len()) =~= s);
    }
}

/// Encoding a number below `256^k` at width `k` and reading it back gives the number.
pub proof fn lemma_be_value_of_bytes(n: nat, k: nat)
    requires
        n < pow256(k),
    ensures
        be_value(be_bytes(n, k)) == n,
    decreases k,
{
    if k > 0 {
        let j = (k - 1) as nat;
        let p = pow256(j);
        lemma_pow256_positive(j);
        lemma_be_bytes_len(n % p, j);
        lemma_be_value_of_bytes(n % p, j);
        let b = be_bytes(n, k);
        assert(b.drop_first() =~= be_bytes(n % p, j));
        assert(n / p < 256) by {
            assert(n < p * 256);
            vstd::arithmetic::div_mod::lemma_multiply_divide_lt(n as int, p as int, 256);
        }
        assert((n / p) % 256 == n / p) by {
            vstd::arithmetic::div_mod::lemma_small_mod((n / p) as nat, 256);
        }
        vstd::arithmetic::div_mod::lemma_fundamental_div_mod(n as int, p as int);
        assert(p * (n / p) == (n / p) * p) by (nonlinear_arith);
    }
}

/// Two strings of one length that denote the same number are equal.
pub proof fn lemma_be_value_injective(a: Seq<u8>, b: Seq<u8>)
    requires
        a.len() == b.len(),
        be_value(a) == be_value(b),
    ensures
        a == b,
{
    lemma_be_bytes_of_value(a);
    lemma_be_bytes_of_value(b);
}

/// Leading zero bytes do not change the value.
pub proof fn lemma_be_value_zero_prefix(k: nat, s: Seq<u8>)
    ensures
        be_value(zeros(k) + s) == be_value(s),
    decreases k,
{
    if k > 0 {
        let t = zeros(k) + s;
        assert(t.drop_first() =~= zeros((k - 1) as nat) + s);
        lemma_be_value_zero_prefix((k - 1) as nat, s);
    }
}

/// A string of zero bytes denotes zero, and only such strings do.
pub proof fn lemma_be_value_zero(s: Seq<u8>)
    ensures
        be_value(s) == 0 <==> all_zero(s),
    decreases s.len(),
{
    if s.len() > 0 {
        let rest = s.drop_first();
        lemma_be_value_zero(rest);
        lemma_pow256_positive((s.len() - 1) as nat);
        if be_value(s) == 0 {
            assert(s[0] as nat * pow256((s.len() - 1) as nat) == 0);
            assert(s[0] == 0) by (nonlinear_arith)
                requires
                    s[0] as nat * pow256((s.len() - 1) as nat) == 0,
                    pow256((s.len() - 1) as nat) > 0,
            ;
            assert forall|i: int| 0 <= i < s.len() implies s[i] == 0 by {
                if i > 0 {
                    assert(s[i] == rest[i - 1]);
                }
            }
        }
        if all_zero(s) {
            assert(all_zero(rest)) by {
                assert forall|i: int| 0 <= i < rest.len() implies rest[i] == 0 by {
                    assert(rest[i] == s[i + 1]);
                }
            }
        }
    }
}

/// A minimal encoding of a number below `256^k` has at most `k` bytes.
pub proof fn lemma_minimal_be_len(s: Seq<u8>, k: nat)
    requires
        is_minimal_be(s),
        be_value(s) < pow256(k),
        k >= 1,
    ensures
        s.len() <= k,
{
    if s.len() > k {
        lemma_be_value_lower(s);
        lemma_pow256_monotone(k, (s.len() - 1) as nat);
        assert(s[0] as nat >= 1);
        assert(s[0] as nat * pow256((s.len() - 1) as nat) >= pow256((s.len() - 1) as nat))
            by (nonlinear_arith)
            requires
                s[0] as nat >= 1,
        ;
    }
}

} // verus!
