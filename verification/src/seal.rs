//! The router seal: a Groth16 proof with its `pi_a` point negated on BN254,
//! prefixed with the trusted selector.
use crate::bytes::{
    all_zero, be_bytes, be_value, lemma_be_bytes_len, lemma_be_bytes_of_value,
    lemma_be_value_bound, lemma_be_value_injective, lemma_be_value_lower,
    lemma_be_value_of_bytes, lemma_be_value_zero, lemma_pow256_positive, pow256, zeros,
};
use vstd::prelude::*;

verus! {

pub const SEAL_SELECTOR_LEN: usize = 4;

pub const SEAL_PROOF_LEN: usize = 256;

pub const SEAL_BYTES_LEN: usize = 260;

pub const TRUSTED_SEAL_SELECTOR: [u8; SEAL_SELECTOR_LEN] = [0x52, 0x5a, 0x56, 0x4d];

pub const GROTH16_PI_A_LEN: usize = 64;

/// The BN254 base field modulus `q`, big-endian.
pub const BN254_FIELD_MODULUS_Q: [u8; 32] = [
    0x30, 0x64, 0x4e, 0x72, 0xe1, 0x31, 0xa0, 0x29, 0xb8, 0x50, 0x45, 0xb6, 0x81, 0x81, 0x58, 0x5d,
    0x97, 0x81, 0x6a, 0x91, 0x68, 0x71, 0xca, 0x8d, 0x3c, 0x20, 0x8c, 0x16, 0xd8, 0x7c, 0xfd, 0x47,
];

/// `q` as a number.
pub open spec fn base_field_modulus() -> nat {
    be_value(BN254_FIELD_MODULUS_Q@)
}

/// The 32-byte difference `a - b` modulo `2^256`.
pub open spec fn wrapping_difference(a: Seq<u8>, b: Seq<u8>) -> Seq<u8> {
    be_bytes(((be_value(a) as int - be_value(b) as int) % (pow256(32) as int)) as nat, 32)
}

/// The negated `y` coordinate: zero stays zero, any other `y` becomes
/// `q - y` (modulo `2^256`, which matters only for a non-canonical `y > q`).
pub open spec fn negate_y(y: Seq<u8>) -> Seq<u8> {
    if all_zero(y) {
        zeros(32)
    } else {
        wrapping_difference(BN254_FIELD_MODULUS_Q@, y)
    }
}

/// A point `x || y` of 64 bytes with its `y` coordinate negated.
pub open spec fn spec_negate_g1(point: Seq<u8>) -> Seq<u8> {
    point.subrange(0, 32) + negate_y(point.subrange(32, 64))
}

/// A 256-byte Groth16 proof with its leading `pi_a` point negated.
pub open spec fn spec_negate_pi_a(proof: Seq<u8>) -> Seq<u8> {
    spec_negate_g1(proof.subrange(0, 64)) + proof.subrange(64, 256)
}

/// The router seal of a proof.
pub open spec fn spec_encode_seal(proof: Seq<u8>) -> Seq<u8> {
    TRUSTED_SEAL_SELECTOR@ + spec_negate_pi_a(proof)
}

proof fn lemma_subtract_step(a: u8, b: u8, borrow: u32)
    requires
        borrow <= 1,
    ensures
        ({
            let result = (a as u32).wrapping_sub(b as u32).wrapping_sub(borrow);
            let next = (result >> 31u32) & 1;
            &&& next <= 1
            &&& (result as u8) as int == a as int - b as int - borrow as int + 256 * next as int
        }),
{
    let d = (a as u32).wrapping_sub(b as u32);
    let result = d.wrapping_sub(borrow);
    if a as int - b as int - borrow as int >= 0 {
        assert(result == a as int - b as int - borrow as int);
        assert(result < 256);
        assert(result < 256 ==> (result >> 31u32) & 1 == 0) by (bit_vector);
        assert(result < 256 ==> (result as u8) as int == result as int) by (bit_vector);
    } else {
        assert(result == 0x1_0000_0000 + a as int - b as int - borrow as int);
        assert(result >= 0xffff_ff00);
        assert(result >= 0xffff_ff00 ==> (result >> 31u32) & 1 == 1) by (bit_vector);
        assert(result >= 0xffff_ff00 ==> (result as u8) as int == result - 0xffff_ff00)
            by (bit_vector);
    }
}

proof fn lemma_suffix_step(s: Seq<u8>, i: int)
    requires
        s.len() == 32,
        0 <= i < 32,
    ensures
        be_value(s.subrange(i, 32)) == s[i] as nat * pow256((31 - i) as nat) + be_value(
            s.subrange(i + 1, 32),
        ),
{
    assert(s.subrange(i, 32).drop_first() =~= s.subrange(i + 1, 32));
}

/// `a := a - b` on 32-byte big-endian numbers, wrapping modulo `2^256`.
pub fn subtract_be_bytes(a: &mut [u8; 32], b: &[u8; 32])
    ensures
        final(a)@ == wrapping_difference(old(a)@, b@),
{
    let mut borrow: u32 = 0;
    let mut i: usize = 32;
    while i > 0
        invariant
            i <= 32,
            borrow <= 1,
            forall|j: int| 0 <= j < i ==> a@[j] == old(a)@[j],
            be_value(a@.subrange(i as int, 32)) + be_value(b@.subrange(i as int, 32)) == be_value(
                old(a)@.subrange(i as int, 32),
            ) + borrow as nat * pow256((32 - i) as nat),
        decreases i,
    {
        let ghost prev_a = a@;
        let ghost prev_borrow = borrow;
        i = i - 1;
        let ai = a[i];
        let bi = b[i];
        let result = (ai as u32).wrapping_sub(bi as u32).wrapping_sub(borrow);
        a[i] = result as u8;
        borrow = (result >> 31) & 1;
        proof {
            lemma_subtract_step(ai, bi, prev_borrow);
            let k = (31 - i) as nat;
            let p = pow256(k);
            lemma_suffix_step(a@, i as int);
            lemma_suffix_step(b@, i as int);
            lemma_suffix_step(old(a)@, i as int);
            assert(a@.subrange(i + 1, 32) =~= prev_a.subrange(i + 1, 32));
            assert(old(a)@[i as int] == ai);
            assert(pow256((32 - i) as nat) == 256 * p);
            let na = a@[i as int] as int;
            assert(na == ai as int - bi as int - prev_borrow as int + 256 * borrow as int);
            assert(na * p + bi as int * p == ai as int * p + borrow as int * (256 * p)
                - prev_borrow as int * p) by (nonlinear_arith)
                requires
                    na == ai as int - bi as int - prev_borrow as int + 256 * borrow as int,
            ;
        }
    }
    proof {
        let m = pow256(32);
        let new_v = be_value(a@);
        let old_v = be_value(old(a)@);
        let b_v = be_value(b@);
        assert(a@.subrange(0, 32) =~= a@);
        assert(b@.subrange(0, 32) =~= b@);
        assert(old(a)@.subrange(0, 32) =~= old(a)@);
        assert(i == 0);
        assert(new_v + b_v == old_v + borrow as nat * m);
        lemma_be_value_bound(a@);
        lemma_pow256_positive(32);
        let q: int = -(borrow as int);
        assert(q * (m as int) == -((borrow as nat * m) as int)) by (nonlinear_arith)
            requires
                q == -(borrow as int),
        ;
        assert(old_v as int - b_v as int == q * (m as int) + new_v as int);
        vstd::arithmetic::div_mod::lemma_fundamental_div_mod_converse(
            old_v as int - b_v as int,
            m as int,
            -(borrow as int),
            new_v as int,
        );
        lemma_be_bytes_of_value(a@);
    }
}

/// Negates the `y` coordinate of a BN254 G1 point given as `x || y`.
fn negate_g1(point: &[u8; 64]) -> (negated: [u8; 64])
    ensures
        negated@ == spec_negate_g1(point@),
{
    let mut negated = [0u8; 64];
    let mut y = [0u8; 32];
    let mut i: usize = 0;
    while i < 32
        invariant
            i <= 32,
            forall|j: int| 0 <= j < i ==> negated@[j] == point@[j],
            forall|j: int| 0 <= j < i ==> y@[j] == point@[32 + j],
            forall|j: int| 32 <= j < 64 ==> negated@[j] == 0,
        decreases 32 - i,
    {
        negated[i] = point[i];
        y[i] = point[32 + i];
        i = i + 1;
    }
    assert(y@ =~= point@.subrange(32, 64));
    let mut all_zero_y = true;
    let mut k: usize = 0;
    while k < 32
        invariant
            k <= 32,
            all_zero_y == (forall|j: int| 0 <= j < k ==> y@[j] == 0),
        decreases 32 - k,
    {
        if y[k] != 0 {
            all_zero_y = false;
        }
        k = k + 1;
    }
    let negated_y = if all_zero_y {
        [0u8; 32]
    } else {
        let mut value = BN254_FIELD_MODULUS_Q;
        subtract_be_bytes(&mut value, &y);
        value
    };
    assert(negated_y@ =~= negate_y(y@));
    let mut j: usize = 0;
    while j < 32
        invariant
            j <= 32,
            forall|t: int| 0 <= t < 32 ==> negated@[t] == point@[t],
            forall|t: int| 0 <= t < j ==> negated@[32 + t] == negated_y@[t],
        decreases 32 - j,
    {
        negated[32 + j] = negated_y[j];
        j = j + 1;
    }
    assert(negated@ =~= spec_negate_g1(point@));
    negated
}

/// Negates the `pi_a` point at the start of a Groth16 proof.
fn negate_pi_a(proof_bytes: &[u8; 256]) -> (encoded: [u8; 256])
    ensures
        encoded@ == spec_negate_pi_a(proof_bytes@),
        forall|k: int| 0 <= k < 32 ==> #[trigger] encoded@[k] == proof_bytes@[k],
        forall|k: int| 64 <= k < 256 ==> #[trigger] encoded@[k] == proof_bytes@[k],
{
    let mut encoded = *proof_bytes;
    let mut pi_a = [0u8; 64];
    let mut i: usize = 0;
    while i < 64
        invariant
            i <= 64,
            forall|j: int| 0 <= j < i ==> pi_a@[j] == proof_bytes@[j],
            encoded == *proof_bytes,
        decreases 64 - i,
    {
        pi_a[i] = encoded[i];
        i = i + 1;
    }
    assert(pi_a@ =~= proof_bytes@.subrange(0, 64));
    let negated = negate_g1(&pi_a);
    let mut j: usize = 0;
    while j < 64
        invariant
            j <= 64,
            forall|t: int| 0 <= t < j ==> encoded@[t] == negated@[t],
            forall|t: int| 64 <= t < 256 ==> encoded@[t] == proof_bytes@[t],
        decreases 64 - j,
    {
        encoded[j] = negated[j];
        j = j + 1;
    }
    proof {
        lemma_negate_g1_len(pi_a@);
    }
    assert(encoded@ =~= spec_negate_pi_a(proof_bytes@));
    encoded
}

proof fn lemma_negate_g1_len(point: Seq<u8>)
    requires
        point.len() == 64,
    ensures
        spec_negate_g1(point).len() == 64,
{
    lemma_be_bytes_len(
        ((be_value(BN254_FIELD_MODULUS_Q@) as int - be_value(point.subrange(32, 64)) as int) % (
        pow256(32) as int)) as nat,
        32,
    );
}

/// The router seal: the trusted selector followed by the proof with its
/// `pi_a` point negated.
pub fn encode_seal(proof_bytes: &[u8; 256]) -> (seal_bytes: Vec<u8>)
    ensures
        seal_bytes@ == spec_encode_seal(proof_bytes@),
        seal_bytes@.len() == SEAL_BYTES_LEN,
        seal_bytes@.subrange(0, 4) == TRUSTED_SEAL_SELECTOR@,
        forall|k: int| 0 <= k < 32 ==> #[trigger] seal_bytes@[4 + k] == proof_bytes@[k],
        forall|k: int| 64 <= k < 256 ==> #[trigger] seal_bytes@[4 + k] == proof_bytes@[k],
        seal_bytes@.subrange(36, 68) == negate_y(proof_bytes@.subrange(32, 64)),
{
    let mut seal_bytes: Vec<u8> = Vec::with_capacity(SEAL_BYTES_LEN);
    let mut i: usize = 0;
    while i < 4
        invariant
            i <= 4,
            seal_bytes@ == TRUSTED_SEAL_SELECTOR@.take(i as int),
        decreases 4 - i,
    {
        seal_bytes.push(TRUSTED_SEAL_SELECTOR[i]);
        i = i + 1;
        assert(seal_bytes@ =~= TRUSTED_SEAL_SELECTOR@.take(i as int));
    }
    let negated = negate_pi_a(proof_bytes);
    let mut j: usize = 0;
    while j < 256
        invariant
            j <= 256,
            seal_bytes@ == TRUSTED_SEAL_SELECTOR@ + negated@.take(j as int),
        decreases 256 - j,
    {
        seal_bytes.push(negated[j]);
        j = j + 1;
        assert(seal_bytes@ =~= TRUSTED_SEAL_SELECTOR@ + negated@.take(j as int));
    }
    assert(negated@.take(256) =~= negated@);
    proof {
        lemma_encode_seal_layout(proof_bytes@);
    }
    seal_bytes
}

// ---------------------------------------------------------------------------
// Laws
// ---------------------------------------------------------------------------

proof fn lemma_base_field_modulus_bounds()
    ensures
        0 < base_field_modulus() < pow256(32),
{
    lemma_be_value_bound(BN254_FIELD_MODULUS_Q@);
    lemma_be_value_lower(BN254_FIELD_MODULUS_Q@);
    lemma_pow256_positive(31);
    assert(BN254_FIELD_MODULUS_Q@[0] == 0x30);
}

/// For a canonical coordinate `y < q` the negation is the field negation:
/// zero for zero, and `q - y` otherwise.
pub proof fn lemma_negate_y_value(y: Seq<u8>)
    requires
        y.len() == 32,
        be_value(y) < base_field_modulus(),
    ensures
        negate_y(y).len() == 32,
        be_value(y) == 0 ==> be_value(negate_y(y)) == 0,
        be_value(y) != 0 ==> be_value(negate_y(y)) == base_field_modulus() - be_value(y),
        be_value(negate_y(y)) < base_field_modulus(),
{
    lemma_base_field_modulus_bounds();
    lemma_be_value_zero(y);
    let m = pow256(32);
    if all_zero(y) {
        lemma_be_value_zero(zeros(32));
    } else {
        let d = base_field_modulus() - be_value(y);
        assert(0 < d < m);
        vstd::arithmetic::div_mod::lemma_small_mod(d as nat, m);
        lemma_be_bytes_len(d as nat, 32);
        lemma_be_value_of_bytes(d as nat, 32);
    }
}

/// Negating the `y` coordinate twice gives the point back, for every point
/// whose `y` coordinate is canonical (below `q`).
pub proof fn lemma_negate_g1_involution(point: Seq<u8>)
    requires
        point.len() == 64,
        be_value(point.subrange(32, 64)) < base_field_modulus(),
    ensures
        spec_negate_g1(spec_negate_g1(point)) == point,
{
    let y = point.subrange(32, 64);
    let ny = negate_y(y);
    lemma_negate_y_value(y);
    lemma_negate_y_value(ny);
    let n = spec_negate_g1(point);
    assert(n.subrange(0, 32) =~= point.subrange(0, 32));
    assert(n.subrange(32, 64) =~= ny);
    let nny = negate_y(ny);
    assert(be_value(nny) == be_value(y));
    lemma_be_value_injective(nny, y);
    assert(spec_negate_g1(n) =~= point);
}

/// The seal is the selector, then the proof with only the `y` coordinate of
/// `pi_a` replaced by its negation: `x` and every byte after `pi_a` (`pi_b`
/// and `pi_c`) are copied in place.
pub proof fn lemma_encode_seal_layout(proof: Seq<u8>)
    requires
        proof.len() == 256,
    ensures
        spec_encode_seal(proof).len() == 260,
        spec_encode_seal(proof).subrange(0, 4) == TRUSTED_SEAL_SELECTOR@,
        forall|k: int| 0 <= k < 32 ==> #[trigger] spec_encode_seal(proof)[4 + k] == proof[k],
        forall|k: int| 64 <= k < 256 ==> #[trigger] spec_encode_seal(proof)[4 + k] == proof[k],
        spec_encode_seal(proof).subrange(36, 68) == negate_y(proof.subrange(32, 64)),
{
    let pi_a = proof.subrange(0, 64);
    lemma_negate_g1_len(pi_a);
    lemma_negate_y_len(pi_a.subrange(32, 64));
    let seal = spec_encode_seal(proof);
    assert(pi_a.subrange(0, 32) =~= proof.subrange(0, 32));
    assert(pi_a.subrange(32, 64) =~= proof.subrange(32, 64));
    assert(seal.subrange(0, 4) =~= TRUSTED_SEAL_SELECTOR@);
    assert forall|k: int| 0 <= k < 32 implies #[trigger] seal[4 + k] == proof[k] by {
        assert(seal[4 + k] == spec_negate_pi_a(proof)[k]);
        assert(spec_negate_pi_a(proof)[k] == spec_negate_g1(pi_a)[k]);
    }
    assert forall|k: int| 64 <= k < 256 implies #[trigger] seal[4 + k] == proof[k] by {
        assert(seal[4 + k] == spec_negate_pi_a(proof)[k]);
    }
    assert(seal.subrange(36, 68) =~= negate_y(proof.subrange(32, 64)));
}

proof fn lemma_negate_y_len(y: Seq<u8>)
    ensures
        negate_y(y).len() == 32,
{
    lemma_be_bytes_len(
        ((be_value(BN254_FIELD_MODULUS_Q@) as int - be_value(y) as int) % (pow256(32) as int)) as nat,
        32,
    );
}

} // verus!
