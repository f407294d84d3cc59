use sapio_template::builder::Builder;
use sapio_template::digest::compute_digest;
use sapio_template::error::TemplateError;
use sapio_template::metadata::TemplateMetadata;
use sapio_template::encoding::{copy_bytes, same_bytes};
use sapio_template::output::{copy_outputs, outputs_mirror, Guard, Output};
use sapio_template::template::{check_parts, same_digest, Template};
use sapio_template::transaction::{TxBody, TxOut};

fn output(amount: i64, script: Vec<u8>) -> Output {
    Output { amount, locking_condition: script, metadata: TemplateMetadata::new() }
}

fn outputs() -> Vec<Output> {
    vec![output(300, vec![0x51]), output(400, vec![0x52, 0x53])]
}

fn body() -> TxBody {
    TxBody {
        version: 2,
        lock_time: 0,
        sequences: vec![0],
        outputs: vec![
            TxOut { value: 300, script_pubkey: vec![0x51] },
            TxOut { value: 400, script_pubkey: vec![0x52, 0x53] },
        ],
    }
}

fn restore(
    ctv: [u8; 32],
    ctv_index: u32,
    max: u64,
    tx: TxBody,
    outputs: Vec<Output>,
) -> Result<Template, TemplateError> {
    Template::from_parts(
        vec![Guard { policy: String::from("pk(A)") }],
        ctv,
        ctv_index,
        max,
        Some(2),
        TemplateMetadata::new(),
        tx,
        outputs,
    )
}

#[test]
fn consistent_parts_are_restored() {
    let ctv = compute_digest(&body(), 0);
    let template = restore(ctv, 0, 1000, body(), outputs()).unwrap();
    assert_eq!(template.hash(), ctv);
    assert_eq!(template.recompute_hash(), ctv);
    assert_eq!(template.total_amount(), 700);
    assert_eq!(template.max(), 1000);
    assert_eq!(template.min_feerate_sats_vbyte(), Some(2));
    assert_eq!(template.guards().len(), 1);
    assert_eq!(template.outputs().len(), 2);
    assert_eq!(template.tx().outputs[1].value, 400);
}

#[test]
fn restored_template_equals_the_built_one() {
    let mut builder = Builder::new();
    for out in outputs() {
        builder.add_output(out).unwrap();
    }
    let built = builder.finalize(0).unwrap();
    let restored = restore(built.hash(), 0, built.max(), body(), outputs()).unwrap();
    assert_eq!(restored.hash(), built.hash());
    assert_eq!(restored.total_amount(), built.total_amount());
}

#[test]
fn wrong_digest_is_an_invariant_violation() {
    let mut ctv = compute_digest(&body(), 0);
    ctv[31] ^= 1;
    assert_eq!(
        restore(ctv, 0, 1000, body(), outputs()).map(|_| ()),
        Err(TemplateError::InvariantViolation)
    );
    assert_eq!(
        restore([0u8; 32], 0, 1000, body(), outputs()).map(|_| ()),
        Err(TemplateError::InvariantViolation)
    );
}

#[test]
fn digest_of_another_index_is_an_invariant_violation() {
    let ctv = compute_digest(&body(), 0);
    assert_eq!(
        restore(ctv, 1, 1000, body(), outputs()).map(|_| ()),
        Err(TemplateError::InvariantViolation)
    );
}

#[test]
fn outputs_that_do_not_mirror_the_body_are_malformed() {
    let ctv = compute_digest(&body(), 0);
    let mut fewer = outputs();
    fewer.pop();
    assert_eq!(
        restore(ctv, 0, 1000, body(), fewer).map(|_| ()),
        Err(TemplateError::MalformedInput)
    );
    let mut other_amount = outputs();
    other_amount[0].amount = 301;
    assert_eq!(
        restore(ctv, 0, 1000, body(), other_amount).map(|_| ()),
        Err(TemplateError::MalformedInput)
    );
    let mut other_script = outputs();
    other_script[1].locking_condition = vec![0x52];
    assert_eq!(
        restore(ctv, 0, 1000, body(), other_script).map(|_| ()),
        Err(TemplateError::MalformedInput)
    );
    let mut negative = outputs();
    negative[0].amount = -300;
    assert_eq!(
        restore(ctv, 0, 1000, body(), negative).map(|_| ()),
        Err(TemplateError::MalformedInput)
    );
}

#[test]
fn parts_without_outputs_are_refused() {
    let empty = TxBody { version: 2, lock_time: 0, sequences: vec![0], outputs: vec![] };
    let ctv = compute_digest(&empty, 0);
    assert_eq!(
        restore(ctv, 0, 1000, empty, vec![]).map(|_| ()),
        Err(TemplateError::EmptyOutputSet)
    );
}

#[test]
fn parts_over_the_maximum_are_refused() {
    let ctv = compute_digest(&body(), 0);
    assert_eq!(
        restore(ctv, 0, 699, body(), outputs()).map(|_| ()),
        Err(TemplateError::AmountExceeded)
    );
    assert!(restore(ctv, 0, 700, body(), outputs()).is_ok());
}

#[test]
fn first_fault_is_named() {
    let claimed = [1u8; 32];
    let recomputed = [2u8; 32];
    let mut fewer = outputs();
    fewer.pop();
    assert_eq!(
        check_parts(&fewer, &body(), 0, &claimed, &recomputed),
        Some(TemplateError::MalformedInput)
    );
    let empty = TxBody { version: 2, lock_time: 0, sequences: vec![0], outputs: vec![] };
    assert_eq!(
        check_parts(&vec![], &empty, 0, &claimed, &recomputed),
        Some(TemplateError::EmptyOutputSet)
    );
    assert_eq!(
        check_parts(&outputs(), &body(), 699, &claimed, &recomputed),
        Some(TemplateError::AmountExceeded)
    );
    assert_eq!(
        check_parts(&outputs(), &body(), 700, &claimed, &recomputed),
        Some(TemplateError::InvariantViolation)
    );
    assert_eq!(check_parts(&outputs(), &body(), 700, &claimed, &claimed), None);
}

#[test]
fn digests_are_compared_byte_by_byte() {
    let a = [7u8; 32];
    let mut b = [7u8; 32];
    assert!(same_digest(&a, &b));
    b[0] = 8;
    assert!(!same_digest(&a, &b));
    b[0] = 7;
    b[31] = 0;
    assert!(!same_digest(&a, &b));
}

#[test]
fn byte_strings_are_compared_and_copied() {
    assert!(same_bytes(&vec![], &vec![]));
    assert!(same_bytes(&vec![1, 2, 3], &vec![1, 2, 3]));
    assert!(!same_bytes(&vec![1, 2, 3], &vec![1, 2]));
    assert!(!same_bytes(&vec![1, 2, 3], &vec![1, 2, 4]));
    assert_eq!(copy_bytes(&vec![9, 8, 7]), vec![9, 8, 7]);
    assert!(copy_bytes(&vec![]).is_empty());
}

#[test]
fn mirroring_compares_amounts_and_scripts_in_order() {
    assert!(outputs_mirror(&outputs(), &body()));
    let mut swapped = outputs();
    swapped.swap(0, 1);
    assert!(!outputs_mirror(&swapped, &body()));
    assert!(outputs_mirror(
        &vec![],
        &TxBody { version: 2, lock_time: 0, sequences: vec![], outputs: vec![] }
    ));
}

#[test]
fn clone_keeps_digest_body_and_outputs() {
    let mut builder = Builder::new();
    builder.set_max(900).unwrap();
    builder.set_min_feerate(4).unwrap();
    builder.add_guard(Guard { policy: String::from("pk(A)") }).unwrap();
    for out in outputs() {
        builder.add_output(out).unwrap();
    }
    let template = builder.finalize(0).unwrap();
    let copy = template.clone();
    assert_eq!(copy.hash(), template.hash());
    assert_eq!(copy.recompute_hash(), template.hash());
    assert_eq!(copy.ctv_index(), template.ctv_index());
    assert_eq!(copy.max(), 900);
    assert_eq!(copy.min_feerate_sats_vbyte(), Some(4));
    assert_eq!(copy.total_amount(), 700);
    assert_eq!(copy.guards().len(), 1);
    assert_eq!(copy.tx().outputs.len(), 2);
    assert_eq!(copy.tx().outputs[1].script_pubkey, vec![0x52, 0x53]);
    assert_eq!(copy.outputs()[0].amount, 300);
    assert_eq!(copy.outputs()[1].locking_condition, vec![0x52, 0x53]);
}

#[test]
fn outputs_are_copied_with_their_metadata() {
    let mut first = output(5, vec![1, 2]);
    first.metadata.label = Some(String::from("first"));
    let copy = copy_outputs(&vec![first, output(6, vec![])]);
    assert_eq!(copy.len(), 2);
    assert_eq!(copy[0].amount, 5);
    assert_eq!(copy[0].locking_condition, vec![1, 2]);
    assert_eq!(copy[0].metadata.label, Some(String::from("first")));
    assert_eq!(copy[1].amount, 6);
    assert!(copy[1].metadata.is_empty());
}
