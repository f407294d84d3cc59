//! Outputs and guards: what a template pays to, and what restricts it.

use crate::encoding::{copy_bytes, same_bytes};
use crate::metadata::TemplateMetadata;
use crate::transaction::{TxBody, TxBodyView, TxOut, TxOutView};
use vstd::prelude::*;

verus! {

/// The version of every transaction body that a builder materializes.
pub const TEMPLATE_VERSION: i32 = 2;

/// The lock time of every transaction body that a builder materializes.
pub const TEMPLATE_LOCK_TIME: u32 = 0;

/// The sequence number of the single placeholder input of every transaction
/// body that a builder materializes.
pub const TEMPLATE_SEQUENCE: u32 = 0;

/// A spending condition, held as the text of its policy.  A template is
/// restricted by all of its guards together.
#[derive(Debug, Clone)]
pub struct Guard {
    /// The policy, in its persisted form.
    pub policy: String,
}

/// A payment destination: an amount, a locking condition, and metadata.
#[derive(Debug, Clone)]
pub struct Output {
    /// The amount, in the smallest unit.  A template holds no negative one.
    pub amount: i64,
    /// The encoded locking condition: the script that locks the amount.
    pub locking_condition: Vec<u8>,
    /// Descriptive metadata.
    pub metadata: TemplateMetadata,
}

/// The sum of the amounts of `outputs`.
pub open spec fn sum_amounts(outputs: Seq<Output>) -> int
    decreases outputs.len(),
{
    if outputs.len() == 0 {
        0
    } else {
        sum_amounts(outputs.drop_last()) + outputs.last().amount
    }
}

/// No amount in `outputs` is negative.
pub open spec fn all_non_negative(outputs: Seq<Output>) -> bool {
    forall|i: int| 0 <= i < outputs.len() ==> (#[trigger] outputs[i]).amount >= 0
}

/// The output of a transaction body that `output` becomes.
pub open spec fn materialize_output(output: Output) -> TxOutView {
    TxOutView { value: output.amount as u64, script_pubkey: output.locking_condition@ }
}

/// The transaction body that `outputs` become: the fixed version and lock
/// time, one placeholder input, and the outputs in their order.
pub open spec fn materialize(outputs: Seq<Output>) -> TxBodyView {
    TxBodyView {
        version: TEMPLATE_VERSION,
        lock_time: TEMPLATE_LOCK_TIME,
        sequences: seq![TEMPLATE_SEQUENCE],
        outputs: Seq::new(outputs.len(), |i: int| materialize_output(outputs[i])),
    }
}

/// `tx_outputs` are `outputs` in the same order: as many, and each with the
/// amount and the locking condition of its output.
pub open spec fn mirrors(outputs: Seq<Output>, tx_outputs: Seq<TxOutView>) -> bool {
    &&& outputs.len() == tx_outputs.len()
    &&& forall|i: int|
        0 <= i < outputs.len() ==> {
            &&& (#[trigger] outputs[i]).amount == tx_outputs[i].value
            &&& outputs[i].locking_condition@ == tx_outputs[i].script_pubkey
        }
}

/// The total of the amounts of `outputs`.
pub(crate) fn total_of(outputs: &Vec<Output>) -> (total: u128)
    requires
        all_non_negative(outputs@),
    ensures
        total == sum_amounts(outputs@),
{
    let mut total: u128 = 0;
    let mut i: usize = 0;
    while i < outputs.len()
        invariant
            i <= outputs@.len(),
            all_non_negative(outputs@),
            total == sum_amounts(outputs@.take(i as int)),
            total <= i * 0x7FFF_FFFF_FFFF_FFFF,
        decreases outputs@.len() - i,
    {
        let amount: i64 = outputs[i].amount;
        proof {
            assert(outputs@.take(i + 1).drop_last() =~= outputs@.take(i as int));
            assert(outputs@.take(i + 1).last() == outputs@[i as int]);
            assert(i * 0x7FFF_FFFF_FFFF_FFFF + 0x7FFF_FFFF_FFFF_FFFF == (i + 1)
                * 0x7FFF_FFFF_FFFF_FFFF) by (nonlinear_arith);
            assert((i + 1) * 0x7FFF_FFFF_FFFF_FFFF <= 0x1_0000_0000_0000_0000
                * 0x7FFF_FFFF_FFFF_FFFF) by (nonlinear_arith)
                requires
                    i + 1 <= 0x1_0000_0000_0000_0000,
            ;
        }
        total = total + amount as u128;
        i = i + 1;
    }
    assert(outputs@.take(i as int) =~= outputs@);
    total
}

/// Two lists of outputs are alike: as many, and each with the amount and
/// the locking condition of the other's.
pub open spec fn same_outputs(a: Seq<Output>, b: Seq<Output>) -> bool {
    &&& a.len() == b.len()
    &&& forall|i: int|
        0 <= i < a.len() ==> {
            &&& (#[trigger] a[i]).amount == b[i].amount
            &&& a[i].locking_condition@ == b[i].locking_condition@
        }
}

/// Lists of outputs that are alike have the same total.
pub proof fn lemma_sum_amounts_alike(a: Seq<Output>, b: Seq<Output>)
    requires
        same_outputs(a, b),
    ensures
        sum_amounts(a) == sum_amounts(b),
    decreases a.len(),
{
    if a.len() > 0 {
        assert(a.last().amount == b.last().amount);
        assert forall|i: int| 0 <= i < a.drop_last().len() implies {
            &&& (#[trigger] a.drop_last()[i]).amount == b.drop_last()[i].amount
            &&& a.drop_last()[i].locking_condition@ == b.drop_last()[i].locking_condition@
        } by {
            assert(a.drop_last()[i] == a[i]);
            assert(b.drop_last()[i] == b[i]);
        }
        lemma_sum_amounts_alike(a.drop_last(), b.drop_last());
    }
}

/// A copy of `outputs`: outputs of the same amounts and locking conditions,
/// each with a copy of the metadata.
pub fn copy_outputs(outputs: &Vec<Output>) -> (copy: Vec<Output>)
    ensures
        same_outputs(copy@, outputs@),
{
    let mut copy: Vec<Output> = Vec::new();
    let mut i: usize = 0;
    while i < outputs.len()
        invariant
            i <= outputs@.len(),
            copy@.len() == i,
            forall|j: int|
                0 <= j < i ==> {
                    &&& (#[trigger] copy@[j]).amount == outputs@[j].amount
                    &&& copy@[j].locking_condition@ == outputs@[j].locking_condition@
                },
        decreases outputs@.len() - i,
    {
        let output = &outputs[i];
        copy.push(
            Output {
                amount: output.amount,
                locking_condition: copy_bytes(&output.locking_condition),
                metadata: output.metadata.clone(),
            },
        );
        i = i + 1;
    }
    copy
}

/// Materializes the transaction body of `outputs`.
pub(crate) fn materialize_tx(outputs: &Vec<Output>) -> (tx: TxBody)
    requires
        all_non_negative(outputs@),
    ensures
        tx@ == materialize(outputs@),
        mirrors(outputs@, tx@.outputs),
{
    let mut tx_outputs: Vec<TxOut> = Vec::new();
    let mut i: usize = 0;
    while i < outputs.len()
        invariant
            i <= outputs@.len(),
            all_non_negative(outputs@),
            tx_outputs@.len() == i,
            forall|j: int| 0 <= j < i ==> (#[trigger] tx_outputs@[j])@ == materialize_output(outputs@[j]),
        decreases outputs@.len() - i,
    {
        let output = &outputs[i];
        tx_outputs.push(
            TxOut {
                value: output.amount as u64,
                script_pubkey: copy_bytes(&output.locking_condition),
            },
        );
        i = i + 1;
    }
    let mut sequences: Vec<u32> = Vec::new();
    sequences.push(TEMPLATE_SEQUENCE);
    let tx = TxBody {
        version: TEMPLATE_VERSION,
        lock_time: TEMPLATE_LOCK_TIME,
        sequences,
        outputs: tx_outputs,
    };
    assert(tx@.outputs =~= materialize(outputs@).outputs);
    assert(tx@.sequences =~= materialize(outputs@).sequences);
    tx
}

/// Whether the outputs of `tx` are `outputs` in the same order.
pub fn outputs_mirror(outputs: &Vec<Output>, tx: &TxBody) -> (ok: bool)
    ensures
        ok == mirrors(outputs@, tx@.outputs),
{
    if outputs.len() != tx.outputs.len() {
        return false;
    }
    let mut i: usize = 0;
    while i < outputs.len()
        invariant
            outputs@.len() == tx.outputs@.len(),
            i <= outputs@.len(),
            forall|j: int|
                0 <= j < i ==> {
                    &&& (#[trigger] outputs@[j]).amount == tx@.outputs[j].value
                    &&& outputs@[j].locking_condition@ == tx@.outputs[j].script_pubkey
                },
        decreases outputs@.len() - i,
    {
        let output = &outputs[i];
        let tx_output = &tx.outputs[i];
        assert(tx@.outputs[i as int] == tx_output@);
        if output.amount < 0 || output.amount as u64 != tx_output.value || !same_bytes(
            &output.locking_condition,
            &tx_output.script_pubkey,
        ) {
            return false;
        }
        i = i + 1;
    }
    true
}

} // verus!
