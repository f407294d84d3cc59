//! The transaction body that a template commits to, held as plain values:
//! version, lock time, one sequence number per input, and the outputs.

use crate::encoding::{
    compact_size, copy_bytes, le_bytes, lemma_compact_size_prefix_free, lemma_concat_split,
    lemma_le_bytes_injective, lemma_le_bytes_len, lemma_radix_pow_values, push_compact_size,
    push_le,
};
use vstd::prelude::*;

verus! {

/// One output of a transaction body: a value and the bytes of its locking
/// script.
#[derive(Debug, Clone)]
pub struct TxOut {
    /// The value, in the smallest unit.
    pub value: u64,
    /// The locking script.
    pub script_pubkey: Vec<u8>,
}

/// The mathematical value of a [`TxOut`].
pub struct TxOutView {
    pub value: u64,
    pub script_pubkey: Seq<u8>,
}

impl View for TxOut {
    type V = TxOutView;

    open spec fn view(&self) -> TxOutView {
        TxOutView { value: self.value, script_pubkey: self.script_pubkey@ }
    }
}

/// A transaction body.  The inputs are placeholders: only their number and
/// their sequence numbers belong to the body, so that the input that is
/// finally spent can vary while the shape of the transaction cannot.
#[derive(Debug, Clone)]
pub struct TxBody {
    /// The transaction version.
    pub version: i32,
    /// The lock time.
    pub lock_time: u32,
    /// The sequence number of each input, in input order.
    pub sequences: Vec<u32>,
    /// The outputs, in output order.
    pub outputs: Vec<TxOut>,
}

/// The mathematical value of a [`TxBody`].
pub struct TxBodyView {
    pub version: i32,
    pub lock_time: u32,
    pub sequences: Seq<u32>,
    pub outputs: Seq<TxOutView>,
}

impl View for TxBody {
    type V = TxBodyView;

    open spec fn view(&self) -> TxBodyView {
        TxBodyView {
            version: self.version,
            lock_time: self.lock_time,
            sequences: self.sequences@,
            outputs: output_views(self.outputs@),
        }
    }
}

/// The views of a sequence of outputs, in the same order.
pub open spec fn output_views(outputs: Seq<TxOut>) -> Seq<TxOutView> {
    Seq::new(outputs.len(), |i: int| outputs[i]@)
}

impl TxOutView {
    /// The script's length fits the 8 bytes that the longest length prefix
    /// holds.
    pub open spec fn well_formed(self) -> bool {
        self.script_pubkey.len() <= u64::MAX
    }
}

impl TxBodyView {
    /// The input count and the output count each fit the 4 bytes in which
    /// the digest holds them, and every output is well formed.
    pub open spec fn well_formed(self) -> bool {
        &&& self.sequences.len() <= u32::MAX
        &&& self.outputs.len() <= u32::MAX
        &&& forall|i: int| 0 <= i < self.outputs.len() ==> (#[trigger] self.outputs[i]).well_formed()
    }
}

/// The serialization of one output: the value in 8 little-endian bytes, the
/// script's length as a compact size, then the script.
pub open spec fn encode_output(out: TxOutView) -> Seq<u8> {
    le_bytes(out.value as int, 8) + compact_size(out.script_pubkey.len() as int)
        + out.script_pubkey
}

/// The serializations of all outputs, one after the other.
pub open spec fn encode_outputs(outputs: Seq<TxOutView>) -> Seq<u8>
    decreases outputs.len(),
{
    if outputs.len() == 0 {
        Seq::<u8>::empty()
    } else {
        encode_outputs(outputs.drop_last()) + encode_output(outputs.last())
    }
}

/// All sequence numbers, each in 4 little-endian bytes, one after the other.
pub open spec fn encode_sequences(sequences: Seq<u32>) -> Seq<u8>
    decreases sequences.len(),
{
    if sequences.len() == 0 {
        Seq::<u8>::empty()
    } else {
        encode_sequences(sequences.drop_last()) + le_bytes(sequences.last() as int, 4)
    }
}

/// No output's serialization is the beginning of another's: where two byte
/// strings that each start with an output agree, the two outputs agree, and
/// so does what follows them.
pub proof fn lemma_output_prefix_free(a: TxOutView, b: TxOutView, s: Seq<u8>, t: Seq<u8>)
    requires
        a.well_formed(),
        b.well_formed(),
        encode_output(a) + s == encode_output(b) + t,
    ensures
        a == b,
        s == t,
{
    let value_a = le_bytes(a.value as int, 8);
    let value_b = le_bytes(b.value as int, 8);
    let size_a = compact_size(a.script_pubkey.len() as int);
    let size_b = compact_size(b.script_pubkey.len() as int);
    lemma_le_bytes_len(a.value as int, 8);
    lemma_le_bytes_len(b.value as int, 8);
    lemma_radix_pow_values();
    assert(encode_output(a) + s =~= value_a + (size_a + (a.script_pubkey + s)));
    assert(encode_output(b) + t =~= value_b + (size_b + (b.script_pubkey + t)));
    lemma_concat_split(
        value_a,
        size_a + (a.script_pubkey + s),
        value_b,
        size_b + (b.script_pubkey + t),
    );
    lemma_le_bytes_injective(a.value as int, b.value as int, 8);
    lemma_compact_size_prefix_free(
        a.script_pubkey.len() as int,
        b.script_pubkey.len() as int,
        a.script_pubkey + s,
        b.script_pubkey + t,
    );
    lemma_concat_split(a.script_pubkey, s, b.script_pubkey, t);
}

/// The serialization of a non-empty list of outputs starts with that of its
/// first output, and that of the others follows.
pub proof fn lemma_encode_outputs_front(outputs: Seq<TxOutView>)
    requires
        outputs.len() > 0,
    ensures
        encode_outputs(outputs) == encode_output(outputs[0]) + encode_outputs(
            outputs.subrange(1, outputs.len() as int),
        ),
    decreases outputs.len(),
{
    let rest = outputs.subrange(1, outputs.len() as int);
    if outputs.len() == 1 {
        assert(encode_outputs(outputs.drop_last()) =~= Seq::<u8>::empty());
        assert(encode_outputs(rest) =~= Seq::<u8>::empty());
        assert(encode_outputs(outputs) =~= encode_output(outputs[0]) + encode_outputs(rest));
    } else {
        let init = outputs.drop_last();
        lemma_encode_outputs_front(init);
        assert(rest.drop_last() =~= init.subrange(1, init.len() as int));
        assert(rest.last() == outputs.last());
        assert(encode_outputs(outputs) =~= encode_output(outputs[0]) + encode_outputs(rest));
    }
}

/// Two lists of well-formed outputs with one serialization are the same
/// list.
pub proof fn lemma_encode_outputs_injective(a: Seq<TxOutView>, b: Seq<TxOutView>)
    requires
        forall|i: int| 0 <= i < a.len() ==> (#[trigger] a[i]).well_formed(),
        forall|i: int| 0 <= i < b.len() ==> (#[trigger] b[i]).well_formed(),
        encode_outputs(a) == encode_outputs(b),
    ensures
        a == b,
    decreases a.len(),
{
    if a.len() == 0 || b.len() == 0 {
        if a.len() > 0 {
            lemma_encode_outputs_front(a);
            lemma_le_bytes_len(a[0].value as int, 8);
        }
        if b.len() > 0 {
            lemma_encode_outputs_front(b);
            lemma_le_bytes_len(b[0].value as int, 8);
        }
        assert(a =~= b);
    } else {
        let rest_a = a.subrange(1, a.len() as int);
        let rest_b = b.subrange(1, b.len() as int);
        lemma_encode_outputs_front(a);
        lemma_encode_outputs_front(b);
        lemma_output_prefix_free(a[0], b[0], encode_outputs(rest_a), encode_outputs(rest_b));
        assert forall|i: int| 0 <= i < rest_a.len() implies (#[trigger] rest_a[i]).well_formed() by {
            assert(rest_a[i] == a[i + 1]);
        }
        assert forall|i: int| 0 <= i < rest_b.len() implies (#[trigger] rest_b[i]).well_formed() by {
            assert(rest_b[i] == b[i + 1]);
        }
        lemma_encode_outputs_injective(rest_a, rest_b);
        assert(a.len() == b.len());
        assert forall|i: int| 0 <= i < a.len() implies a[i] == b[i] by {
            if i > 0 {
                assert(a[i] == rest_a[i - 1]);
                assert(b[i] == rest_b[i - 1]);
            }
        }
        assert(a =~= b);
    }
}

/// Every sequence number takes 4 bytes.
pub proof fn lemma_encode_sequences_len(sequences: Seq<u32>)
    ensures
        encode_sequences(sequences).len() == 4 * sequences.len(),
    decreases sequences.len(),
{
    if sequences.len() > 0 {
        lemma_encode_sequences_len(sequences.drop_last());
        lemma_le_bytes_len(sequences.last() as int, 4);
    }
}

/// Two lists of sequence numbers with one serialization are the same list.
pub proof fn lemma_encode_sequences_injective(a: Seq<u32>, b: Seq<u32>)
    requires
        encode_sequences(a) == encode_sequences(b),
    ensures
        a == b,
    decreases a.len(),
{
    lemma_encode_sequences_len(a);
    lemma_encode_sequences_len(b);
    if a.len() > 0 {
        lemma_encode_sequences_len(a.drop_last());
        lemma_encode_sequences_len(b.drop_last());
        lemma_le_bytes_len(a.last() as int, 4);
        lemma_le_bytes_len(b.last() as int, 4);
        lemma_radix_pow_values();
        lemma_concat_split(
            encode_sequences(a.drop_last()),
            le_bytes(a.last() as int, 4),
            encode_sequences(b.drop_last()),
            le_bytes(b.last() as int, 4),
        );
        lemma_le_bytes_injective(a.last() as int, b.last() as int, 4);
        lemma_encode_sequences_injective(a.drop_last(), b.drop_last());
        assert(a =~= a.drop_last().push(a.last()));
        assert(b =~= b.drop_last().push(b.last()));
    } else {
        assert(a =~= b);
    }
}

/// Appends `bytes` to `buf`.
pub fn push_bytes(buf: &mut Vec<u8>, bytes: &[u8])
    ensures
        final(buf)@ == old(buf)@ + bytes@,
{
    let mut i: usize = 0;
    while i < bytes.len()
        invariant
            i <= bytes@.len(),
            buf@ == old(buf)@ + bytes@.take(i as int),
        decreases bytes@.len() - i,
    {
        let ghost before = buf@;
        buf.push(bytes[i]);
        assert(before.push(bytes@[i as int]) =~= old(buf)@ + bytes@.take(i + 1));
        i = i + 1;
    }
    assert(bytes@.take(i as int) =~= bytes@);
}

/// Appends the serialization of `out` to `buf`.
pub fn push_output(buf: &mut Vec<u8>, out: &TxOut)
    ensures
        final(buf)@ == old(buf)@ + encode_output(out@),
{
    let ghost before = buf@;
    push_le(buf, out.value, 8);
    push_compact_size(buf, out.script_pubkey.len() as u64);
    push_bytes(buf, out.script_pubkey.as_slice());
    assert(buf@ =~= before + encode_output(out@));
}

/// A copy of `tx`.
pub fn copy_body(tx: &TxBody) -> (copy: TxBody)
    ensures
        copy@ == tx@,
{
    let mut sequences: Vec<u32> = Vec::new();
    let mut i: usize = 0;
    while i < tx.sequences.len()
        invariant
            i <= tx.sequences@.len(),
            sequences@ == tx.sequences@.take(i as int),
        decreases tx.sequences@.len() - i,
    {
        sequences.push(tx.sequences[i]);
        assert(sequences@ =~= tx.sequences@.take(i + 1));
        i = i + 1;
    }
    assert(tx.sequences@.take(i as int) =~= tx.sequences@);
    let mut outputs: Vec<TxOut> = Vec::new();
    let mut k: usize = 0;
    while k < tx.outputs.len()
        invariant
            k <= tx.outputs@.len(),
            outputs@.len() == k,
            forall|j: int| 0 <= j < k ==> (#[trigger] outputs@[j])@ == tx.outputs@[j]@,
        decreases tx.outputs@.len() - k,
    {
        let output = &tx.outputs[k];
        outputs.push(
            TxOut { value: output.value, script_pubkey: copy_bytes(&output.script_pubkey) },
        );
        k = k + 1;
    }
    let copy = TxBody { version: tx.version, lock_time: tx.lock_time, sequences, outputs };
    assert(copy@.outputs =~= tx@.outputs);
    copy
}

impl TxBody {
    /// Whether the counts of this body fit the digest's 4-byte count fields.
    pub fn is_well_formed(&self) -> (ok: bool)
        ensures
            ok == self@.well_formed(),
    {
        let limit: u64 = 0xFFFF_FFFF;
        proof {
            assert forall|i: int| 0 <= i < self@.outputs.len() implies (#[trigger] self@.outputs[
                i
            ]).well_formed() by {
                let out = self.outputs@[i];
                assert(out.script_pubkey.len() == out.script_pubkey@.len());
            }
        }
        self.sequences.len() as u64 <= limit && self.outputs.len() as u64 <= limit
    }

    /// The serialization of all sequence numbers.
    pub fn sequences_bytes(&self) -> (bytes: Vec<u8>)
        ensures
            bytes@ == encode_sequences(self@.sequences),
    {
        let mut bytes: Vec<u8> = Vec::new();
        let mut i: usize = 0;
        while i < self.sequences.len()
            invariant
                i <= self.sequences@.len(),
                bytes@ == encode_sequences(self.sequences@.take(i as int)),
            decreases self.sequences@.len() - i,
        {
            push_le(&mut bytes, self.sequences[i] as u64, 4);
            proof {
                let next = self.sequences@.take(i + 1);
                assert(next.drop_last() =~= self.sequences@.take(i as int));
            }
            i = i + 1;
        }
        assert(self.sequences@.take(i as int) =~= self.sequences@);
        bytes
    }

    /// The serialization of all outputs.
    pub fn outputs_bytes(&self) -> (bytes: Vec<u8>)
        ensures
            bytes@ == encode_outputs(self@.outputs),
    {
        let mut bytes: Vec<u8> = Vec::new();
        let mut i: usize = 0;
        while i < self.outputs.len()
            invariant
                i <= self.outputs@.len(),
                bytes@ == encode_outputs(self@.outputs.take(i as int)),
            decreases self.outputs@.len() - i,
        {
            push_output(&mut bytes, &self.outputs[i]);
            proof {
                let next = self@.outputs.take(i + 1);
                assert(next.drop_last() =~= self@.outputs.take(i as int));
                assert(next.last() == self.outputs@[i as int]@);
            }
            i = i + 1;
        }
        assert(self@.outputs.take(i as int) =~= self@.outputs);
        bytes
    }
}

} // verus!
