use sapio_template::builder::Builder;
use sapio_template::digest::compute_digest;
use sapio_template::error::TemplateError;
use sapio_template::metadata::TemplateMetadata;
use sapio_template::output::{Guard, Output};
use sapio_template::transaction::{TxBody, TxOut};

fn output(amount: i64, script: Vec<u8>) -> Output {
    Output { amount, locking_condition: script, metadata: TemplateMetadata::new() }
}

fn hex(bytes: &[u8]) -> String {
    let mut text = String::new();
    for byte in bytes {
        text.push_str(&format!("{:02x}", byte));
    }
    text
}

#[test]
fn two_outputs_within_the_maximum() {
    let mut builder = Builder::new();
    assert_eq!(builder.set_max(1000), Ok(()));
    assert_eq!(builder.add_output(output(300, vec![])), Ok(()));
    assert_eq!(builder.add_output(output(400, vec![])), Ok(()));
    assert_eq!(builder.pending_total(), 700);
    let template = builder.finalize(0).unwrap();
    assert_eq!(template.total_amount(), 700);
    assert_eq!(template.max(), 1000);
    assert_eq!(template.ctv_index(), 0);
    assert_eq!(
        hex(&template.hash()),
        "28a0c149f95b0701a345af2d6748c2680e6f78c0609979ce669681658d65c4d4"
    );
    assert!(builder.is_finalized());
}

#[test]
fn template_digest_is_the_digest_of_its_body() {
    let mut builder = Builder::new();
    builder.add_output(output(300, vec![0x51])).unwrap();
    builder.add_output(output(400, vec![0x00, 0x01, 0xAA])).unwrap();
    let template = builder.finalize(3).unwrap();
    assert_eq!(template.ctv_index(), 3);
    assert_eq!(template.hash(), compute_digest(template.tx(), template.ctv_index()));
    assert_eq!(template.hash(), template.recompute_hash());
    let independent = TxBody {
        version: 2,
        lock_time: 0,
        sequences: vec![0],
        outputs: vec![
            TxOut { value: 300, script_pubkey: vec![0x51] },
            TxOut { value: 400, script_pubkey: vec![0x00, 0x01, 0xAA] },
        ],
    };
    assert_eq!(template.hash(), compute_digest(&independent, 3));
    assert_ne!(template.hash(), compute_digest(&independent, 0));
}

#[test]
fn body_mirrors_the_outputs_in_insertion_order() {
    let mut builder = Builder::new();
    builder.add_output(output(5, vec![1])).unwrap();
    builder.add_output(output(0, vec![])).unwrap();
    builder.add_output(output(7, vec![2, 3])).unwrap();
    let template = builder.finalize(0).unwrap();
    let tx = template.tx();
    assert_eq!(tx.version, 2);
    assert_eq!(tx.lock_time, 0);
    assert_eq!(tx.sequences, vec![0]);
    assert_eq!(tx.outputs.len(), 3);
    assert_eq!(template.outputs().len(), 3);
    for (mine, theirs) in template.outputs().iter().zip(tx.outputs.iter()) {
        assert_eq!(mine.amount as u64, theirs.value);
        assert_eq!(mine.locking_condition, theirs.script_pubkey);
    }
    assert_eq!(tx.outputs[0].value, 5);
    assert_eq!(tx.outputs[1].value, 0);
    assert_eq!(tx.outputs[2].script_pubkey, vec![2, 3]);
    assert_eq!(template.total_amount(), 12);
    assert!(template.total_amount() <= template.max());
}

#[test]
fn total_over_the_maximum_is_refused() {
    let mut builder = Builder::new();
    builder.set_max(500).unwrap();
    builder.add_output(output(250, vec![])).unwrap();
    builder.add_output(output(350, vec![])).unwrap();
    assert_eq!(builder.finalize(0).map(|_| ()), Err(TemplateError::AmountExceeded));
    assert!(!builder.is_finalized());
    assert_eq!(builder.pending_outputs(), 2);
    assert_eq!(builder.pending_total(), 600);
    assert_eq!(builder.finalize(0).map(|_| ()), Err(TemplateError::AmountExceeded));
}

#[test]
fn refused_builder_takes_a_removal_and_goes_on() {
    let mut builder = Builder::new();
    builder.set_max(500).unwrap();
    builder.add_output(output(250, vec![1])).unwrap();
    builder.add_output(output(350, vec![2])).unwrap();
    assert!(builder.finalize(0).is_err());
    let removed = builder.remove_output(1).unwrap();
    assert_eq!(removed.amount, 350);
    assert_eq!(removed.locking_condition, vec![2]);
    builder.add_output(output(250, vec![3])).unwrap();
    let template = builder.finalize(0).unwrap();
    assert_eq!(template.total_amount(), 500);
    assert_eq!(template.outputs()[1].locking_condition, vec![3]);
}

#[test]
fn refused_builder_takes_a_higher_maximum() {
    let mut builder = Builder::new();
    builder.set_max(500).unwrap();
    builder.add_output(output(600, vec![])).unwrap();
    assert_eq!(builder.finalize(0).map(|_| ()), Err(TemplateError::AmountExceeded));
    builder.set_max(600).unwrap();
    let template = builder.finalize(0).unwrap();
    assert_eq!(template.total_amount(), 600);
    assert_eq!(
        hex(&template.hash()),
        "04a30ae939d5339619aa4408b73873da8649f933480e3d3b4c707dc77f20c090"
    );
}

#[test]
fn total_equal_to_the_maximum_is_accepted() {
    let mut builder = Builder::new();
    builder.set_max(700).unwrap();
    builder.add_output(output(300, vec![])).unwrap();
    builder.add_output(output(400, vec![])).unwrap();
    assert!(builder.finalize(0).is_ok());
}

#[test]
fn no_output_is_refused() {
    let mut builder = Builder::new();
    assert_eq!(builder.finalize(0).map(|_| ()), Err(TemplateError::EmptyOutputSet));
    assert!(!builder.is_finalized());
    builder.add_guard(Guard { policy: String::from("pk(A)") }).unwrap();
    assert_eq!(builder.finalize(0).map(|_| ()), Err(TemplateError::EmptyOutputSet));
    builder.add_output(output(1, vec![])).unwrap();
    assert!(builder.finalize(0).is_ok());
}

#[test]
fn negative_amount_is_refused_at_entry() {
    let mut builder = Builder::new();
    assert_eq!(builder.add_output(output(-1, vec![])), Err(TemplateError::MalformedInput));
    assert_eq!(builder.add_output(output(i64::MIN, vec![])), Err(TemplateError::MalformedInput));
    assert_eq!(builder.pending_outputs(), 0);
    assert_eq!(builder.pending_total(), 0);
    assert_eq!(builder.add_output(output(0, vec![])), Ok(()));
    assert_eq!(builder.pending_outputs(), 1);
}

#[test]
fn removal_beyond_the_last_output_is_refused() {
    let mut builder = Builder::new();
    builder.add_output(output(1, vec![])).unwrap();
    assert_eq!(builder.remove_output(1).map(|_| ()), Err(TemplateError::MalformedInput));
    assert_eq!(builder.pending_outputs(), 1);
    assert_eq!(builder.remove_output(0).map(|o| o.amount), Ok(1));
    assert_eq!(builder.remove_output(0).map(|_| ()), Err(TemplateError::MalformedInput));
}

#[test]
fn finalized_builder_refuses_everything() {
    let mut builder = Builder::new();
    builder.add_output(output(10, vec![])).unwrap();
    assert!(builder.finalize(0).is_ok());
    assert!(builder.is_finalized());
    assert_eq!(builder.finalize(0).map(|_| ()), Err(TemplateError::AlreadyFinalized));
    assert_eq!(builder.add_output(output(1, vec![])), Err(TemplateError::AlreadyFinalized));
    assert_eq!(builder.add_output(output(-1, vec![])), Err(TemplateError::AlreadyFinalized));
    assert_eq!(
        builder.add_guard(Guard { policy: String::from("pk(A)") }),
        Err(TemplateError::AlreadyFinalized)
    );
    assert_eq!(builder.set_max(5), Err(TemplateError::AlreadyFinalized));
    assert_eq!(builder.set_min_feerate(5), Err(TemplateError::AlreadyFinalized));
    assert_eq!(builder.set_metadata(TemplateMetadata::new()), Err(TemplateError::AlreadyFinalized));
    assert_eq!(builder.remove_output(0).map(|_| ()), Err(TemplateError::AlreadyFinalized));
    assert_eq!(builder.pending_outputs(), 0);
}

#[test]
fn new_builder_has_the_largest_maximum() {
    let mut builder = Builder::new();
    assert!(!builder.is_finalized());
    assert_eq!(builder.pending_outputs(), 0);
    builder.add_output(output(i64::MAX, vec![])).unwrap();
    builder.add_output(output(i64::MAX, vec![])).unwrap();
    builder.add_output(output(1, vec![])).unwrap();
    assert_eq!(builder.pending_total(), u64::MAX as u128);
    let template = builder.finalize(0).unwrap();
    assert_eq!(template.max(), u64::MAX);
    assert_eq!(template.total_amount(), u64::MAX);
    assert_eq!(template.min_feerate_sats_vbyte(), None);
    assert!(template.metadata().is_empty());
    assert!(template.guards().is_empty());
}

#[test]
fn total_beyond_every_maximum_is_refused() {
    let mut builder = Builder::new();
    builder.add_output(output(i64::MAX, vec![])).unwrap();
    builder.add_output(output(i64::MAX, vec![])).unwrap();
    builder.add_output(output(2, vec![])).unwrap();
    assert_eq!(builder.pending_total(), u64::MAX as u128 + 1);
    assert_eq!(builder.finalize(0).map(|_| ()), Err(TemplateError::AmountExceeded));
}

#[test]
fn template_carries_guards_bounds_and_metadata() {
    let mut metadata = TemplateMetadata::new();
    metadata.label = Some(String::from("payout"));
    let mut builder = Builder::new();
    builder.add_guard(Guard { policy: String::from("pk(A)") }).unwrap();
    builder.add_guard(Guard { policy: String::from("after(100)") }).unwrap();
    builder.set_min_feerate(3).unwrap();
    builder.set_max(50).unwrap();
    builder.set_metadata(metadata).unwrap();
    builder.add_output(output(50, vec![0x51])).unwrap();
    let template = builder.finalize(0).unwrap();
    assert_eq!(template.guards().len(), 2);
    assert_eq!(template.guards()[0].policy, "pk(A)");
    assert_eq!(template.guards()[1].policy, "after(100)");
    assert_eq!(template.min_feerate_sats_vbyte(), Some(3));
    assert_eq!(template.max(), 50);
    assert_eq!(template.metadata().label, Some(String::from("payout")));
    assert!(!template.metadata().is_empty());
}

#[test]
fn guards_and_metadata_do_not_change_the_digest() {
    let mut plain = Builder::new();
    plain.add_output(output(50, vec![0x51])).unwrap();
    let plain = plain.finalize(0).unwrap();

    let mut metadata = TemplateMetadata::new();
    metadata.color = Some(String::from("red"));
    let mut marked = output(50, vec![0x51]);
    marked.metadata.label = Some(String::from("first"));
    let mut rich = Builder::new();
    rich.add_guard(Guard { policy: String::from("pk(A)") }).unwrap();
    rich.set_metadata(metadata).unwrap();
    rich.set_max(60).unwrap();
    rich.set_min_feerate(1).unwrap();
    rich.add_output(marked).unwrap();
    let rich = rich.finalize(0).unwrap();

    assert_eq!(plain.hash(), rich.hash());
}
