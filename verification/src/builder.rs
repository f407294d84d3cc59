//! The builder: the one place where templates are made.

use crate::digest::{compute_digest, template_digest};
use crate::error::TemplateError;
use crate::metadata::{TemplateMetadata, TemplateMetadataView};
use crate::output::{
    all_non_negative, materialize, materialize_tx, sum_amounts, total_of, Guard, Output,
};
use crate::template::{Template, TemplateView};
use vstd::prelude::*;

verus! {

/// The most outputs that a builder takes: as many as the 4 bytes of the
/// output count can tell.
pub const MAX_OUTPUTS: usize = 0xFFFF_FFFF;

/// Accumulates the outputs, guards and bounds of a template, and makes the
/// template from them, once.  A builder is accumulating until `finalize`
/// succeeds, and finalized from then on.
#[derive(Debug)]
pub struct Builder {
    outputs: Vec<Output>,
    guards: Vec<Guard>,
    max: u64,
    min_feerate_sats_vbyte: Option<u64>,
    metadata: TemplateMetadata,
    finalized: bool,
}

/// The mathematical value of a [`Builder`].
pub struct BuilderView {
    /// The pending outputs, in the order in which they were added.
    pub outputs: Seq<Output>,
    /// The pending guards, in the order in which they were added.
    pub guards: Seq<Guard>,
    /// The most that the template may receive.
    pub max: u64,
    /// The least fee rate to enforce, if any.
    pub min_feerate_sats_vbyte: Option<u64>,
    /// The metadata that the template will carry.
    pub metadata: TemplateMetadata,
    /// Whether the template has been made.
    pub finalized: bool,
}

impl BuilderView {
    /// What holds of every builder: no pending amount is negative, and the
    /// pending outputs are no more than `MAX_OUTPUTS`.
    pub open spec fn valid(self) -> bool {
        &&& all_non_negative(self.outputs)
        &&& self.outputs.len() <= MAX_OUTPUTS
    }

    /// Why `finalize` fails in this state, if it does.
    pub open spec fn finalize_error(self) -> Option<TemplateError> {
        if self.finalized {
            Some(TemplateError::AlreadyFinalized)
        } else if self.outputs.len() == 0 {
            Some(TemplateError::EmptyOutputSet)
        } else if sum_amounts(self.outputs) > self.max {
            Some(TemplateError::AmountExceeded)
        } else {
            None
        }
    }

    /// Why this state does not take `output`, if it does not.
    pub open spec fn add_output_error(self, output: Output) -> Option<TemplateError> {
        if self.finalized {
            Some(TemplateError::AlreadyFinalized)
        } else if output.amount < 0 || self.outputs.len() >= MAX_OUTPUTS {
            Some(TemplateError::MalformedInput)
        } else {
            None
        }
    }

    /// Why this state gives up no output at `index`, if it does not.
    pub open spec fn remove_output_error(self, index: usize) -> Option<TemplateError> {
        if self.finalized {
            Some(TemplateError::AlreadyFinalized)
        } else if index >= self.outputs.len() {
            Some(TemplateError::MalformedInput)
        } else {
            None
        }
    }
}

impl View for Builder {
    type V = BuilderView;

    closed spec fn view(&self) -> BuilderView {
        BuilderView {
            outputs: self.outputs@,
            guards: self.guards@,
            max: self.max,
            min_feerate_sats_vbyte: self.min_feerate_sats_vbyte,
            metadata: self.metadata,
            finalized: self.finalized,
        }
    }
}

impl Builder {
    #[verifier::type_invariant]
    spec fn consistent(&self) -> bool {
        self@.valid()
    }

    /// A builder without outputs and guards, with empty metadata, no least
    /// fee rate, and the largest maximum there is.
    pub fn new() -> (builder: Builder)
        ensures
            builder@.outputs == Seq::<Output>::empty(),
            builder@.guards == Seq::<Guard>::empty(),
            builder@.max == u64::MAX,
            builder@.min_feerate_sats_vbyte == None::<u64>,
            builder@.metadata@ == TemplateMetadataView::empty(),
            !builder@.finalized,
            builder@.valid(),
    {
        Builder {
            outputs: Vec::new(),
            guards: Vec::new(),
            max: u64::MAX,
            min_feerate_sats_vbyte: None,
            metadata: TemplateMetadata::new(),
            finalized: false,
        }
    }

    /// Whether the template has been made.
    pub fn is_finalized(&self) -> (finalized: bool)
        ensures
            finalized == self@.finalized,
    {
        self.finalized
    }

    /// The total of the pending amounts.
    pub fn pending_total(&self) -> (total: u128)
        ensures
            total == sum_amounts(self@.outputs),
            self@.valid(),
    {
        proof {
            use_type_invariant(self);
        }
        total_of(&self.outputs)
    }

    /// The number of pending outputs.
    pub fn pending_outputs(&self) -> (count: usize)
        ensures
            count == self@.outputs.len(),
    {
        self.outputs.len()
    }

    /// Appends `output` to the pending outputs.  A finalized builder takes
    /// none; an accumulating one refuses a negative amount, and any output
    /// once it holds `MAX_OUTPUTS`.  A refusal changes nothing.
    pub fn add_output(&mut self, output: Output) -> (result: Result<(), TemplateError>)
        ensures
            match result {
                Ok(_) => {
                    &&& old(self)@.add_output_error(output) is None
                    &&& final(self)@ == (BuilderView {
                        outputs: old(self)@.outputs.push(output),
                        ..old(self)@
                    })
                    &&& sum_amounts(final(self)@.outputs) == sum_amounts(old(self)@.outputs)
                        + output.amount
                },
                Err(error) => {
                    &&& old(self)@.add_output_error(output) == Some(error)
                    &&& final(self)@ == old(self)@
                },
            },
            final(self)@.valid(),
    {
        proof {
            use_type_invariant(&*self);
        }
        if self.finalized {
            return Err(TemplateError::AlreadyFinalized);
        }
        if output.amount < 0 || self.outputs.len() >= MAX_OUTPUTS {
            return Err(TemplateError::MalformedInput);
        }
        let mut outputs: Vec<Output> = Vec::new();
        core::mem::swap(&mut outputs, &mut self.outputs);
        outputs.push(output);
        proof {
            assert(outputs@.drop_last() =~= old(self).outputs@);
        }
        self.outputs = outputs;
        Ok(())
    }

    /// Takes the pending output at `index` out again and hands it back; the
    /// others keep their order.  A finalized builder gives up none, and there
    /// is none at an index beyond the last.  A refusal changes nothing.
    pub fn remove_output(&mut self, index: usize) -> (result: Result<Output, TemplateError>)
        ensures
            match result {
                Ok(output) => {
                    &&& old(self)@.remove_output_error(index) is None
                    &&& output == old(self)@.outputs[index as int]
                    &&& final(self)@ == (BuilderView {
                        outputs: old(self)@.outputs.remove(index as int),
                        ..old(self)@
                    })
                },
                Err(error) => {
                    &&& old(self)@.remove_output_error(index) == Some(error)
                    &&& final(self)@ == old(self)@
                },
            },
            final(self)@.valid(),
    {
        proof {
            use_type_invariant(&*self);
        }
        if self.finalized {
            return Err(TemplateError::AlreadyFinalized);
        }
        if index >= self.outputs.len() {
            return Err(TemplateError::MalformedInput);
        }
        let mut outputs: Vec<Output> = Vec::new();
        core::mem::swap(&mut outputs, &mut self.outputs);
        let output = outputs.remove(index);
        self.outputs = outputs;
        Ok(output)
    }

    /// Appends `guard` to the pending guards, unless the builder is
    /// finalized.
    pub fn add_guard(&mut self, guard: Guard) -> (result: Result<(), TemplateError>)
        ensures
            match result {
                Ok(_) => {
                    &&& !old(self)@.finalized
                    &&& final(self)@ == (BuilderView {
                        guards: old(self)@.guards.push(guard),
                        ..old(self)@
                    })
                },
                Err(error) => {
                    &&& old(self)@.finalized
                    &&& error == TemplateError::AlreadyFinalized
                    &&& final(self)@ == old(self)@
                },
            },
    {
        proof {
            use_type_invariant(&*self);
        }
        if self.finalized {
            return Err(TemplateError::AlreadyFinalized);
        }
        let mut guards: Vec<Guard> = Vec::new();
        core::mem::swap(&mut guards, &mut self.guards);
        guards.push(guard);
        self.guards = guards;
        Ok(())
    }

    /// Sets the maximum, unless the builder is finalized.
    pub fn set_max(&mut self, amount: u64) -> (result: Result<(), TemplateError>)
        ensures
            match result {
                Ok(_) => {
                    &&& !old(self)@.finalized
                    &&& final(self)@ == (BuilderView { max: amount, ..old(self)@ })
                },
                Err(error) => {
                    &&& old(self)@.finalized
                    &&& error == TemplateError::AlreadyFinalized
                    &&& final(self)@ == old(self)@
                },
            },
    {
        proof {
            use_type_invariant(&*self);
        }
        if self.finalized {
            return Err(TemplateError::AlreadyFinalized);
        }
        self.max = amount;
        Ok(())
    }

    /// Sets the least fee rate, unless the builder is finalized.
    pub fn set_min_feerate(&mut self, amount: u64) -> (result: Result<(), TemplateError>)
        ensures
            match result {
                Ok(_) => {
                    &&& !old(self)@.finalized
                    &&& final(self)@ == (BuilderView {
                        min_feerate_sats_vbyte: Some(amount),
                        ..old(self)@
                    })
                },
                Err(error) => {
                    &&& old(self)@.finalized
                    &&& error == TemplateError::AlreadyFinalized
                    &&& final(self)@ == old(self)@
                },
            },
    {
        proof {
            use_type_invariant(&*self);
        }
        if self.finalized {
            return Err(TemplateError::AlreadyFinalized);
        }
        self.min_feerate_sats_vbyte = Some(amount);
        Ok(())
    }

    /// Sets the metadata that the template will carry, unless the builder is
    /// finalized.
    pub fn set_metadata(&mut self, metadata: TemplateMetadata) -> (result: Result<
        (),
        TemplateError,
    >)
        ensures
            match result {
                Ok(_) => {
                    &&& !old(self)@.finalized
                    &&& final(self)@ == (BuilderView { metadata, ..old(self)@ })
                },
                Err(error) => {
                    &&& old(self)@.finalized
                    &&& error == TemplateError::AlreadyFinalized
                    &&& final(self)@ == old(self)@
                },
            },
    {
        proof {
            use_type_invariant(&*self);
        }
        if self.finalized {
            return Err(TemplateError::AlreadyFinalized);
        }
        self.metadata = metadata;
        Ok(())
    }

    /// Makes the template: checks the pending outputs against the maximum,
    /// materializes the transaction body from them, and computes its digest
    /// at `ctv_index`.
    ///
    /// A failure changes nothing, and the builder goes on accumulating.  On
    /// success the template takes what was pending, and the builder is
    /// finalized and empty.
    pub fn finalize(&mut self, ctv_index: u32) -> (result: Result<Template, TemplateError>)
        ensures
            match result {
                Ok(template) => {
                    &&& old(self)@.finalize_error() is None
                    &&& template@ == (TemplateView {
                        guards: old(self)@.guards,
                        ctv: template_digest(materialize(old(self)@.outputs), ctv_index),
                        ctv_index,
                        max: old(self)@.max,
                        min_feerate_sats_vbyte: old(self)@.min_feerate_sats_vbyte,
                        metadata: old(self)@.metadata,
                        tx: materialize(old(self)@.outputs),
                        outputs: old(self)@.outputs,
                    })
                    &&& template@.valid()
                    &&& final(self)@.finalized
                    &&& final(self)@.outputs == Seq::<Output>::empty()
                    &&& final(self)@.guards == Seq::<Guard>::empty()
                    &&& final(self)@.max == old(self)@.max
                    &&& final(self)@.min_feerate_sats_vbyte == old(self)@.min_feerate_sats_vbyte
                    &&& final(self)@.metadata@ == TemplateMetadataView::empty()
                },
                Err(error) => {
                    &&& old(self)@.finalize_error() == Some(error)
                    &&& final(self)@ == old(self)@
                },
            },
    {
        proof {
            use_type_invariant(&*self);
        }
        if self.finalized {
            return Err(TemplateError::AlreadyFinalized);
        }
        if self.outputs.len() == 0 {
            return Err(TemplateError::EmptyOutputSet);
        }
        if total_of(&self.outputs) > self.max as u128 {
            return Err(TemplateError::AmountExceeded);
        }
        let tx = materialize_tx(&self.outputs);
        assert(tx@.well_formed()) by {
            assert forall|i: int| 0 <= i < tx@.outputs.len() implies (#[trigger] tx@.outputs[
                i
            ]).well_formed() by {
                let script = self.outputs@[i].locking_condition;
                assert(script.len() == script@.len());
            }
        }
        let ctv: [u8; 32] = compute_digest(&tx, ctv_index);
        let mut outputs: Vec<Output> = Vec::new();
        let mut guards: Vec<Guard> = Vec::new();
        let mut metadata: TemplateMetadata = TemplateMetadata::new();
        core::mem::swap(&mut outputs, &mut self.outputs);
        core::mem::swap(&mut guards, &mut self.guards);
        core::mem::swap(&mut metadata, &mut self.metadata);
        self.finalized = true;
        Ok(
            Template::assemble(
                guards,
                ctv,
                ctv_index,
                self.max,
                self.min_feerate_sats_vbyte,
                metadata,
                tx,
                outputs,
            ),
        )
    }
}

} // verus!
