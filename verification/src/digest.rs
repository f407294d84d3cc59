//! The commitment function: the digest that binds a transaction body and an
//! input index into 32 bytes.

use crate::encoding::{
    le_bytes, lemma_le_bytes_injective, lemma_le_bytes_len, lemma_radix_pow_values, push_le,
    twos_complement,
};
use crate::transaction::{
    encode_outputs, encode_sequences, lemma_encode_outputs_injective,
    lemma_encode_sequences_injective, push_bytes, TxBody, TxBodyView,
};
use vstd::prelude::*;

verus! {

/// The SHA-256 hash of a byte string.
pub uninterp spec fn sha256(data: Seq<u8>) -> [u8; 32];

/// Hashes `data` with `bitcoin::hashes::sha256::Hash::hash` and hands out the
/// 32 bytes of the result.  The contract claims only that the bytes are the
/// function `sha256` of the input: that the hash depends on nothing but the
/// bytes that were hashed.
#[verifier::external_body]
fn sha256_of(data: &[u8]) -> (digest: [u8; 32])
    ensures
        digest == sha256(data@),
{
    let hash = <bitcoin::hashes::sha256::Hash as bitcoin::hashes::Hash>::hash(data);
    bitcoin::hashes::Hash::into_inner(hash)
}

/// What is hashed for a digest, in this order: the version, the lock time,
/// the number of inputs, the hash of all sequence numbers, the number of
/// outputs, the hash of all outputs, and the index.  Each number takes 4
/// little-endian bytes, each hash its 32 bytes.
pub open spec fn preimage_of(
    version: i32,
    lock_time: u32,
    inputs: u32,
    sequences_hash: [u8; 32],
    outputs: u32,
    outputs_hash: [u8; 32],
    index: u32,
) -> Seq<u8> {
    le_bytes(twos_complement(version), 4) + le_bytes(lock_time as int, 4) + le_bytes(
        inputs as int,
        4,
    ) + sequences_hash@ + le_bytes(outputs as int, 4) + outputs_hash@ + le_bytes(index as int, 4)
}

/// What is hashed for the digest of `tx` at `index`.  The scripts and
/// witnesses of the inputs are no part of it.
pub open spec fn digest_preimage(tx: TxBodyView, index: u32) -> Seq<u8> {
    preimage_of(
        tx.version,
        tx.lock_time,
        tx.sequences.len() as u32,
        sha256(encode_sequences(tx.sequences)),
        tx.outputs.len() as u32,
        sha256(encode_outputs(tx.outputs)),
        index,
    )
}

/// The digest of `tx` at `index`.
pub open spec fn template_digest(tx: TxBodyView, index: u32) -> [u8; 32] {
    sha256(digest_preimage(tx, index))
}

/// What is hashed tells every field that is written into it: where the same
/// bytes are hashed for two digests, the two have the same version, lock
/// time, counts, index and inner hashes.
pub proof fn lemma_preimage_injective(
    version_a: i32,
    lock_time_a: u32,
    inputs_a: u32,
    sequences_hash_a: [u8; 32],
    outputs_a: u32,
    outputs_hash_a: [u8; 32],
    index_a: u32,
    version_b: i32,
    lock_time_b: u32,
    inputs_b: u32,
    sequences_hash_b: [u8; 32],
    outputs_b: u32,
    outputs_hash_b: [u8; 32],
    index_b: u32,
)
    requires
        preimage_of(
            version_a,
            lock_time_a,
            inputs_a,
            sequences_hash_a,
            outputs_a,
            outputs_hash_a,
            index_a,
        ) == preimage_of(
            version_b,
            lock_time_b,
            inputs_b,
            sequences_hash_b,
            outputs_b,
            outputs_hash_b,
            index_b,
        ),
    ensures
        version_a == version_b,
        lock_time_a == lock_time_b,
        inputs_a == inputs_b,
        sequences_hash_a == sequences_hash_b,
        outputs_a == outputs_b,
        outputs_hash_a == outputs_hash_b,
        index_a == index_b,
{
    let pa = preimage_of(
        version_a,
        lock_time_a,
        inputs_a,
        sequences_hash_a,
        outputs_a,
        outputs_hash_a,
        index_a,
    );
    let pb = preimage_of(
        version_b,
        lock_time_b,
        inputs_b,
        sequences_hash_b,
        outputs_b,
        outputs_hash_b,
        index_b,
    );
    lemma_radix_pow_values();
    lemma_le_bytes_len(twos_complement(version_a), 4);
    lemma_le_bytes_len(twos_complement(version_b), 4);
    lemma_le_bytes_len(lock_time_a as int, 4);
    lemma_le_bytes_len(lock_time_b as int, 4);
    lemma_le_bytes_len(inputs_a as int, 4);
    lemma_le_bytes_len(inputs_b as int, 4);
    lemma_le_bytes_len(outputs_a as int, 4);
    lemma_le_bytes_len(outputs_b as int, 4);
    lemma_le_bytes_len(index_a as int, 4);
    lemma_le_bytes_len(index_b as int, 4);
    assert(pa.subrange(0, 4) =~= le_bytes(twos_complement(version_a), 4));
    assert(pb.subrange(0, 4) =~= le_bytes(twos_complement(version_b), 4));
    lemma_le_bytes_injective(twos_complement(version_a), twos_complement(version_b), 4);
    assert(pa.subrange(4, 8) =~= le_bytes(lock_time_a as int, 4));
    assert(pb.subrange(4, 8) =~= le_bytes(lock_time_b as int, 4));
    lemma_le_bytes_injective(lock_time_a as int, lock_time_b as int, 4);
    assert(pa.subrange(8, 12) =~= le_bytes(inputs_a as int, 4));
    assert(pb.subrange(8, 12) =~= le_bytes(inputs_b as int, 4));
    lemma_le_bytes_injective(inputs_a as int, inputs_b as int, 4);
    assert(pa.subrange(12, 44) =~= sequences_hash_a@);
    assert(pb.subrange(12, 44) =~= sequences_hash_b@);
    assert(sequences_hash_a =~= sequences_hash_b);
    assert(pa.subrange(44, 48) =~= le_bytes(outputs_a as int, 4));
    assert(pb.subrange(44, 48) =~= le_bytes(outputs_b as int, 4));
    lemma_le_bytes_injective(outputs_a as int, outputs_b as int, 4);
    assert(pa.subrange(48, 80) =~= outputs_hash_a@);
    assert(pb.subrange(48, 80) =~= outputs_hash_b@);
    assert(outputs_hash_a =~= outputs_hash_b);
    assert(pa.subrange(80, 84) =~= le_bytes(index_a as int, 4));
    assert(pb.subrange(80, 84) =~= le_bytes(index_b as int, 4));
    lemma_le_bytes_injective(index_a as int, index_b as int, 4);
}

/// Determinism: equal transaction bodies and equal indexes have the same
/// digest, however the two bodies were built.
pub proof fn lemma_digest_deterministic(a: TxBody, i: u32, b: TxBody, j: u32)
    requires
        a@ == b@,
        i == j,
    ensures
        template_digest(a@, i) == template_digest(b@, j),
{
}

/// Sensitivity: the digest tells apart any two well-formed bodies and
/// indexes, unless SHA-256 itself fails.  Where two that differ in the
/// version, the lock time, a sequence number, an output's value, an output's
/// script, the number of inputs or outputs, or the index have the same
/// digest, two different byte strings have the same SHA-256 hash.
pub proof fn lemma_digest_sensitive(a: TxBodyView, i: u32, b: TxBodyView, j: u32)
    requires
        a.well_formed(),
        b.well_formed(),
        a != b || i != j,
        template_digest(a, i) == template_digest(b, j),
    ensures
        exists|x: Seq<u8>, y: Seq<u8>| x != y && sha256(x) == sha256(y),
{
    let pa = digest_preimage(a, i);
    let pb = digest_preimage(b, j);
    let sa = encode_sequences(a.sequences);
    let sb = encode_sequences(b.sequences);
    let oa = encode_outputs(a.outputs);
    let ob = encode_outputs(b.outputs);
    if pa != pb {
        assert(pa != pb && sha256(pa) == sha256(pb));
    } else {
        lemma_preimage_injective(
            a.version,
            a.lock_time,
            a.sequences.len() as u32,
            sha256(sa),
            a.outputs.len() as u32,
            sha256(oa),
            i,
            b.version,
            b.lock_time,
            b.sequences.len() as u32,
            sha256(sb),
            b.outputs.len() as u32,
            sha256(ob),
            j,
        );
        if sa != sb {
            assert(sa != sb && sha256(sa) == sha256(sb));
        } else if oa != ob {
            assert(oa != ob && sha256(oa) == sha256(ob));
        } else {
            lemma_encode_sequences_injective(a.sequences, b.sequences);
            lemma_encode_outputs_injective(a.outputs, b.outputs);
            assert(a == b);
        }
    }
}

/// The 32-bit two's complement pattern of `v`.
fn twos_complement_of(v: i32) -> (pattern: u32)
    ensures
        pattern == twos_complement(v),
{
    if v >= 0 {
        v as u32
    } else {
        let shifted: u32 = (v + i32::MAX + 1) as u32;
        shifted + 0x8000_0000u32
    }
}

/// Assembles what is hashed for a digest from the fields of a body and its
/// two inner hashes.
pub fn assemble_preimage(
    version: i32,
    lock_time: u32,
    inputs: u32,
    sequences_hash: &[u8; 32],
    outputs: u32,
    outputs_hash: &[u8; 32],
    index: u32,
) -> (bytes: Vec<u8>)
    ensures
        bytes@ == preimage_of(
            version,
            lock_time,
            inputs,
            *sequences_hash,
            outputs,
            *outputs_hash,
            index,
        ),
        bytes@.len() == 84,
{
    let mut buf: Vec<u8> = Vec::new();
    push_le(&mut buf, twos_complement_of(version) as u64, 4);
    push_le(&mut buf, lock_time as u64, 4);
    push_le(&mut buf, inputs as u64, 4);
    push_bytes(&mut buf, sequences_hash.as_slice());
    push_le(&mut buf, outputs as u64, 4);
    push_bytes(&mut buf, outputs_hash.as_slice());
    push_le(&mut buf, index as u64, 4);
    proof {
        lemma_le_bytes_len(twos_complement(version), 4);
        lemma_le_bytes_len(lock_time as int, 4);
        lemma_le_bytes_len(inputs as int, 4);
        lemma_le_bytes_len(outputs as int, 4);
        lemma_le_bytes_len(index as int, 4);
        assert(buf@ =~= preimage_of(
            version,
            lock_time,
            inputs,
            *sequences_hash,
            outputs,
            *outputs_hash,
            index,
        ));
    }
    buf
}

/// Computes the digest of `tx` at `index`: hashes the sequence numbers,
/// hashes the outputs, and hashes what `assemble_preimage` makes of the two
/// and the other fields.
pub fn compute_digest(tx: &TxBody, index: u32) -> (digest: [u8; 32])
    requires
        tx@.well_formed(),
    ensures
        digest == template_digest(tx@, index),
{
    let sequences_hash: [u8; 32] = sha256_of(tx.sequences_bytes().as_slice());
    let outputs_hash: [u8; 32] = sha256_of(tx.outputs_bytes().as_slice());
    let preimage: Vec<u8> = assemble_preimage(
        tx.version,
        tx.lock_time,
        tx.sequences.len() as u32,
        &sequences_hash,
        tx.outputs.len() as u32,
        &outputs_hash,
        index,
    );
    sha256_of(preimage.as_slice())
}

} // verus!
