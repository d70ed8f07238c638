use std::collections::HashMap;

use near_lake_s3::block::{BlockRecord, Chunk, ExecutionOutcome, ExecutionStatus, Shard, Transaction};
use near_lake_s3::correlate::{correlate, is_valid_receipt, outcome_ids_to_resolve};
use near_lake_s3::publish::{handle_streamer_message, publish_ops, StoreOp};

fn s(x: &str) -> String {
    x.to_string()
}

fn watched() -> Vec<String> {
    vec![s("a.near")]
}

fn outcome(id: &str, executor: &str, status: ExecutionStatus, receipts: &[&str]) -> ExecutionOutcome {
    ExecutionOutcome {
        id: s(id),
        executor_id: s(executor),
        status,
        receipt_ids: receipts.iter().map(|r| s(r)).collect(),
    }
}

fn tx(hash: &str, receiver: &str, status: ExecutionStatus) -> Transaction {
    Transaction { hash: s(hash), receiver_id: s(receiver), status }
}

fn block(height: u64, outcomes: Vec<ExecutionOutcome>, txs: Option<Vec<Transaction>>) -> BlockRecord {
    BlockRecord {
        height,
        shards: vec![Shard {
            chunk: txs.map(|transactions| Chunk { transactions }),
            receipt_execution_outcomes: outcomes,
        }],
    }
}

fn pairs(v: &[(&str, &str)]) -> Vec<(String, String)> {
    v.iter().map(|(a, b)| (s(a), s(b))).collect()
}

fn apply(store: &mut HashMap<String, String>, ops: &[StoreOp]) {
    for op in ops {
        if let StoreOp::SetMapping(k, v) = op {
            store.insert(k.clone(), v.clone());
        }
    }
}

#[test]
fn watched_outcome_resolved_maps_children() {
    let b = block(
        1000,
        vec![outcome("o1", "a.near", ExecutionStatus::SuccessValue, &["r1"])],
        None,
    );
    assert_eq!(outcome_ids_to_resolve(&b, &watched()), vec![s("o1")]);
    let c = correlate(&b, &watched(), &pairs(&[("o1", "tx1")]));
    assert!(c.relevant);
    assert_eq!(c.mapping.entries(), &pairs(&[("r1", "tx1")]));
    let ops = publish_ops(b.height, &c);
    assert_eq!(
        ops,
        vec![
            StoreOp::SetMapping(s("r1"), s("tx1")),
            StoreOp::PushBlock,
            StoreOp::WriteCheckpoint(1000)
        ]
    );
}

#[test]
fn watched_outcome_unresolved_still_publishes() {
    let b = block(
        1001,
        vec![outcome("o1", "a.near", ExecutionStatus::SuccessValue, &["r1"])],
        None,
    );
    let c = correlate(&b, &watched(), &vec![]);
    assert!(c.relevant);
    assert_eq!(c.mapping.len(), 0);
    let ops = handle_streamer_message(&b, &watched(), &vec![]);
    assert_eq!(ops, vec![StoreOp::PushBlock, StoreOp::WriteCheckpoint(1001)]);
}

#[test]
fn transaction_to_watched_account_maps_its_receipt() {
    let b = block(
        1002,
        vec![],
        Some(vec![tx("txh2", "a.near", ExecutionStatus::SuccessReceiptId(s("r2")))]),
    );
    let c = correlate(&b, &watched(), &vec![]);
    assert_eq!(c.mapping.entries(), &pairs(&[("r2", "txh2")]));
    assert!(!c.relevant);
}

#[test]
fn transaction_pass_overrides_outcome_pass() {
    let b = block(
        1003,
        vec![outcome("o1", "a.near", ExecutionStatus::SuccessValue, &["r2", "r3"])],
        Some(vec![tx("txh2", "a.near", ExecutionStatus::SuccessReceiptId(s("r2")))]),
    );
    let c = correlate(&b, &watched(), &pairs(&[("o1", "tx1")]));
    assert!(c.relevant);
    assert_eq!(c.mapping.entries(), &pairs(&[("r2", "txh2"), ("r3", "tx1")]));
}

#[test]
fn irrelevant_block_on_cadence_writes_checkpoint() {
    let b = block(500, vec![], None);
    assert_eq!(handle_streamer_message(&b, &watched(), &vec![]), vec![StoreOp::WriteCheckpoint(500)]);
}

#[test]
fn irrelevant_block_off_cadence_writes_nothing() {
    let b = block(501, vec![], None);
    assert_eq!(handle_streamer_message(&b, &watched(), &vec![]), vec![]);
}

#[test]
fn quiet_block_is_irrelevant_and_maps_nothing() {
    let b = block(
        777,
        vec![outcome("o1", "b.near", ExecutionStatus::SuccessValue, &["r1"])],
        Some(vec![tx("txh", "c.near", ExecutionStatus::SuccessReceiptId(s("r9")))]),
    );
    assert!(outcome_ids_to_resolve(&b, &watched()).is_empty());
    let c = correlate(&b, &watched(), &pairs(&[("o1", "tx1")]));
    assert!(!c.relevant);
    assert_eq!(c.mapping.len(), 0);
}

#[test]
fn unknown_status_does_not_count() {
    let o = outcome("o1", "a.near", ExecutionStatus::Unknown, &["r1"]);
    assert!(!is_valid_receipt(&o, &watched()));
    assert!(is_valid_receipt(&outcome("o1", "a.near", ExecutionStatus::Failure, &[]), &watched()));
    let b = block(1004, vec![o], None);
    let c = correlate(&b, &watched(), &pairs(&[("o1", "tx1")]));
    assert!(!c.relevant);
    assert_eq!(c.mapping.len(), 0);
}

#[test]
fn failed_or_value_transactions_map_nothing() {
    let b = block(
        1005,
        vec![],
        Some(vec![
            tx("t1", "a.near", ExecutionStatus::Failure),
            tx("t2", "a.near", ExecutionStatus::SuccessValue),
        ]),
    );
    assert_eq!(correlate(&b, &watched(), &vec![]).mapping.len(), 0);
}

#[test]
fn outcomes_across_shards_are_resolved_in_order() {
    let b = BlockRecord {
        height: 9,
        shards: vec![
            Shard {
                chunk: None,
                receipt_execution_outcomes: vec![outcome("o1", "a.near", ExecutionStatus::SuccessValue, &["r1"])],
            },
            Shard {
                chunk: Some(Chunk { transactions: vec![] }),
                receipt_execution_outcomes: vec![
                    outcome("o2", "x.near", ExecutionStatus::SuccessValue, &["r2"]),
                    outcome("o3", "a.near", ExecutionStatus::Failure, &["r3"]),
                ],
            },
        ],
    };
    assert_eq!(outcome_ids_to_resolve(&b, &watched()), vec![s("o1"), s("o3")]);
    let c = correlate(&b, &watched(), &pairs(&[("o3", "tx3"), ("o1", "tx1")]));
    assert_eq!(c.mapping.entries(), &pairs(&[("r1", "tx1"), ("r3", "tx3")]));
}

#[test]
fn replaying_mapping_writes_gives_same_store() {
    let b = block(
        1006,
        vec![outcome("o1", "a.near", ExecutionStatus::SuccessValue, &["r1", "r2"])],
        None,
    );
    let ops = handle_streamer_message(&b, &watched(), &pairs(&[("o1", "tx1")]));
    let mut once: HashMap<String, String> = HashMap::new();
    once.insert(s("r1"), s("old"));
    apply(&mut once, &ops);
    let mut twice = once.clone();
    apply(&mut twice, &ops);
    assert_eq!(once, twice);
    assert_eq!(once.get("r1"), Some(&s("tx1")));
}

#[test]
fn checkpoints_do_not_decrease_along_a_run() {
    let run = vec![
        block(100, vec![], None),
        block(150, vec![outcome("o", "a.near", ExecutionStatus::SuccessValue, &[])], None),
        block(199, vec![], None),
        block(200, vec![], None),
    ];
    let mut written: Vec<u64> = vec![];
    for b in &run {
        for op in handle_streamer_message(b, &watched(), &vec![]) {
            if let StoreOp::WriteCheckpoint(h) = op {
                written.push(h);
            }
        }
    }
    assert_eq!(written, vec![100, 150, 200]);
}

#[test]
fn relevant_block_pushes_after_mappings() {
    let b = block(
        1234,
        vec![outcome("o1", "a.near", ExecutionStatus::SuccessValue, &["r1", "r2", "r3"])],
        None,
    );
    let ops = handle_streamer_message(&b, &watched(), &pairs(&[("o1", "tx1")]));
    assert_eq!(ops.len(), 5);
    assert!(ops[..3].iter().all(|o| matches!(o, StoreOp::SetMapping(_, _))));
    assert_eq!(ops[3], StoreOp::PushBlock);
    assert_eq!(ops[4], StoreOp::WriteCheckpoint(1234));
}
