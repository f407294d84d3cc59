//! The template: the committed description of a transaction to be.

use crate::digest::{compute_digest, template_digest};
use crate::error::TemplateError;
use crate::metadata::TemplateMetadata;
use crate::output::{
    copy_outputs, lemma_sum_amounts_alike, mirrors, outputs_mirror, same_outputs, sum_amounts,
    total_of, Guard, Output,
};
use crate::transaction::{copy_body, TxBody, TxBodyView};
use vstd::prelude::*;

verus! {

/// A transaction template: the guards that restrict it, the cached digest
/// and the index it is scoped to, the value bounds, descriptive metadata, the
/// transaction body, and the outputs with what is known of them.
///
/// A template never changes, and every template is consistent: see
/// [`TemplateView::valid`].
#[derive(Debug)]
pub struct Template {
    guards: Vec<Guard>,
    ctv: [u8; 32],
    ctv_index: u32,
    max: u64,
    min_feerate_sats_vbyte: Option<u64>,
    metadata: TemplateMetadata,
    tx: TxBody,
    outputs: Vec<Output>,
}

/// The mathematical value of a [`Template`].
pub struct TemplateView {
    /// The guards; all of them must be satisfied.
    pub guards: Seq<Guard>,
    /// The cached digest.
    pub ctv: [u8; 32],
    /// The input index that the digest is scoped to.
    pub ctv_index: u32,
    /// The most that the template may receive.
    pub max: u64,
    /// The least fee rate to enforce, if any.
    pub min_feerate_sats_vbyte: Option<u64>,
    /// The metadata.
    pub metadata: TemplateMetadata,
    /// The transaction body that the digest commits to.
    pub tx: TxBodyView,
    /// The outputs.
    pub outputs: Seq<Output>,
}

impl TemplateView {
    /// What holds of every template: the cached digest is the digest of the
    /// body at the index; the body is well formed; there is an output; the
    /// body's outputs are the template's outputs, one for one; and the total
    /// of the amounts is within the maximum.
    pub open spec fn valid(self) -> bool {
        &&& self.tx.well_formed()
        &&& mirrors(self.outputs, self.tx.outputs)
        &&& self.outputs.len() > 0
        &&& sum_amounts(self.outputs) <= self.max
        &&& self.ctv == template_digest(self.tx, self.ctv_index)
    }
}

/// What is wrong with the parts of a template, if anything, given the digest
/// that was claimed for them and the digest that their body has.  The first
/// fault in this order is named: parts that do not fit together, no output,
/// a total over the maximum, a claimed digest that is not the body's.
pub open spec fn parts_error(
    outputs: Seq<Output>,
    tx: TxBodyView,
    max: u64,
    claimed: [u8; 32],
    recomputed: [u8; 32],
) -> Option<TemplateError> {
    if !tx.well_formed() || !mirrors(outputs, tx.outputs) {
        Some(TemplateError::MalformedInput)
    } else if outputs.len() == 0 {
        Some(TemplateError::EmptyOutputSet)
    } else if sum_amounts(outputs) > max {
        Some(TemplateError::AmountExceeded)
    } else if claimed != recomputed {
        Some(TemplateError::InvariantViolation)
    } else {
        None
    }
}

/// Whether two digests are the same.
pub fn same_digest(a: &[u8; 32], b: &[u8; 32]) -> (same: bool)
    ensures
        same == (*a == *b),
{
    let mut i: usize = 0;
    while i < 32
        invariant
            i <= 32,
            forall|j: int| 0 <= j < i ==> a@[j] == b@[j],
        decreases 32 - i,
    {
        if a[i] != b[i] {
            return false;
        }
        i = i + 1;
    }
    assert(*a =~= *b);
    true
}

/// Names what is wrong with the parts of a template, if anything, given the
/// digest `claimed` for them and the digest `recomputed` from their body.
pub fn check_parts(
    outputs: &Vec<Output>,
    tx: &TxBody,
    max: u64,
    claimed: &[u8; 32],
    recomputed: &[u8; 32],
) -> (verdict: Option<TemplateError>)
    ensures
        verdict == parts_error(outputs@, tx@, max, *claimed, *recomputed),
{
    if !tx.is_well_formed() || !outputs_mirror(outputs, tx) {
        return Some(TemplateError::MalformedInput);
    }
    if outputs.len() == 0 {
        return Some(TemplateError::EmptyOutputSet);
    }
    if total_of(outputs) > max as u128 {
        return Some(TemplateError::AmountExceeded);
    }
    if !same_digest(claimed, recomputed) {
        return Some(TemplateError::InvariantViolation);
    }
    None
}

impl View for Template {
    type V = TemplateView;

    closed spec fn view(&self) -> TemplateView {
        TemplateView {
            guards: self.guards@,
            ctv: self.ctv,
            ctv_index: self.ctv_index,
            max: self.max,
            min_feerate_sats_vbyte: self.min_feerate_sats_vbyte,
            metadata: self.metadata,
            tx: self.tx@,
            outputs: self.outputs@,
        }
    }
}

impl Clone for Template {
    /// A template with the same digest, index, bounds and transaction body,
    /// and with outputs of the same amounts and locking conditions.
    fn clone(&self) -> (copy: Template)
        ensures
            copy@.ctv == self@.ctv,
            copy@.ctv_index == self@.ctv_index,
            copy@.max == self@.max,
            copy@.min_feerate_sats_vbyte == self@.min_feerate_sats_vbyte,
            copy@.tx == self@.tx,
            same_outputs(copy@.outputs, self@.outputs),
            copy@.valid(),
    {
        proof {
            use_type_invariant(self);
        }
        let tx = copy_body(&self.tx);
        let outputs = copy_outputs(&self.outputs);
        proof {
            lemma_sum_amounts_alike(outputs@, self.outputs@);
        }
        Template {
            guards: self.guards.clone(),
            ctv: self.ctv,
            ctv_index: self.ctv_index,
            max: self.max,
            min_feerate_sats_vbyte: self.min_feerate_sats_vbyte,
            metadata: self.metadata.clone(),
            tx,
            outputs,
        }
    }
}

impl Template {
    #[verifier::type_invariant]
    spec fn consistent(&self) -> bool {
        self@.valid()
    }

    /// Puts a template together from parts that are known to be consistent.
    pub(crate) fn assemble(
        guards: Vec<Guard>,
        ctv: [u8; 32],
        ctv_index: u32,
        max: u64,
        min_feerate_sats_vbyte: Option<u64>,
        metadata: TemplateMetadata,
        tx: TxBody,
        outputs: Vec<Output>,
    ) -> (template: Template)
        requires
            parts_error(outputs@, tx@, max, ctv, template_digest(tx@, ctv_index)) is None,
        ensures
            template@ == (TemplateView {
                guards: guards@,
                ctv,
                ctv_index,
                max,
                min_feerate_sats_vbyte,
                metadata,
                tx: tx@,
                outputs: outputs@,
            }),
            template@.valid(),
    {
        Template { guards, ctv, ctv_index, max, min_feerate_sats_vbyte, metadata, tx, outputs }
    }

    /// Restores a template from parts that come from outside, such as a
    /// persisted record.  The parts are accepted only if they are consistent:
    /// the digest is recomputed from the body and held against the one that
    /// is claimed.
    pub fn from_parts(
        guards: Vec<Guard>,
        ctv: [u8; 32],
        ctv_index: u32,
        max: u64,
        min_feerate_sats_vbyte: Option<u64>,
        metadata: TemplateMetadata,
        tx: TxBody,
        outputs: Vec<Output>,
    ) -> (result: Result<Template, TemplateError>)
        ensures
            match result {
                Ok(template) => {
                    &&& parts_error(outputs@, tx@, max, ctv, template_digest(tx@, ctv_index)) is None
                    &&& template@ == (TemplateView {
                        guards: guards@,
                        ctv,
                        ctv_index,
                        max,
                        min_feerate_sats_vbyte,
                        metadata,
                        tx: tx@,
                        outputs: outputs@,
                    })
                    &&& template@.valid()
                },
                Err(error) => parts_error(
                    outputs@,
                    tx@,
                    max,
                    ctv,
                    template_digest(tx@, ctv_index),
                ) == Some(error),
            },
    {
        if !tx.is_well_formed() {
            return Err(TemplateError::MalformedInput);
        }
        let recomputed: [u8; 32] = compute_digest(&tx, ctv_index);
        match check_parts(&outputs, &tx, max, &ctv, &recomputed) {
            Some(error) => Err(error),
            None => Ok(
                Template::assemble(
                    guards,
                    ctv,
                    ctv_index,
                    max,
                    min_feerate_sats_vbyte,
                    metadata,
                    tx,
                    outputs,
                ),
            ),
        }
    }

    /// The cached digest of this template: the digest of its transaction
    /// body at its index.
    pub fn hash(&self) -> (digest: [u8; 32])
        ensures
            digest == self@.ctv,
            digest == template_digest(self@.tx, self@.ctv_index),
    {
        proof {
            use_type_invariant(self);
        }
        self.ctv
    }

    /// The guards.
    pub fn guards(&self) -> (guards: &Vec<Guard>)
        ensures
            guards@ == self@.guards,
    {
        &self.guards
    }

    /// The input index that the digest is scoped to.
    pub fn ctv_index(&self) -> (index: u32)
        ensures
            index == self@.ctv_index,
    {
        self.ctv_index
    }

    /// The most that this template may receive.
    pub fn max(&self) -> (max: u64)
        ensures
            max == self@.max,
    {
        self.max
    }

    /// The least fee rate to enforce, if any.
    pub fn min_feerate_sats_vbyte(&self) -> (rate: Option<u64>)
        ensures
            rate == self@.min_feerate_sats_vbyte,
    {
        self.min_feerate_sats_vbyte
    }

    /// The metadata.
    pub fn metadata(&self) -> (metadata: &TemplateMetadata)
        ensures
            *metadata == self@.metadata,
    {
        &self.metadata
    }

    /// The transaction body that the digest commits to.
    pub fn tx(&self) -> (tx: &TxBody)
        ensures
            tx@ == self@.tx,
    {
        &self.tx
    }

    /// The outputs, in the order of the transaction body's.
    pub fn outputs(&self) -> (outputs: &Vec<Output>)
        ensures
            outputs@ == self@.outputs,
            mirrors(outputs@, self@.tx.outputs),
    {
        proof {
            use_type_invariant(self);
        }
        &self.outputs
    }

    /// Computes the digest anew from the transaction body and the index.  It
    /// is the cached digest.
    pub fn recompute_hash(&self) -> (digest: [u8; 32])
        ensures
            digest == self@.ctv,
            digest == template_digest(self@.tx, self@.ctv_index),
    {
        proof {
            use_type_invariant(self);
        }
        compute_digest(&self.tx, self.ctv_index)
    }

    /// The total of the outputs' amounts: what must be sent to this template
    /// for its transaction to succeed.  It is within the maximum.
    pub fn total_amount(&self) -> (total: u64)
        ensures
            total == sum_amounts(self@.outputs),
            total <= self@.max,
            self@.valid(),
    {
        proof {
            use_type_invariant(self);
        }
        let total: u128 = total_of(&self.outputs);
        total as u64
    }
}

} // verus!
