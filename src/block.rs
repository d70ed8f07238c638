//! The block data the library reads: heights, shards, chunks, transactions
//! and receipt execution outcomes, as plain values.
use vstd::prelude::*;

verus! {

/// How an execution ended, as the chain reports it.
#[derive(Clone, Debug)]
pub enum ExecutionStatus {
    /// Not yet known.
    Unknown,
    /// The execution failed.
    Failure,
    /// The execution succeeded and returned a value.
    SuccessValue,
    /// The execution succeeded and spawned the receipt with this id.
    SuccessReceiptId(String),
}

/// The outcome of executing one receipt.
#[derive(Clone, Debug)]
pub struct ExecutionOutcome {
    /// The receipt id.
    pub id: String,
    /// The account whose contract executed the receipt.
    pub executor_id: String,
    pub status: ExecutionStatus,
    /// The receipts spawned by this execution.
    pub receipt_ids: Vec<String>,
}

/// A transaction as submitted by a user, with the status of its conversion
/// into a receipt.
#[derive(Clone, Debug)]
pub struct Transaction {
    pub hash: String,
    pub receiver_id: String,
    pub status: ExecutionStatus,
}

/// The transactions of one shard in one block.
#[derive(Clone, Debug)]
pub struct Chunk {
    pub transactions: Vec<Transaction>,
}

/// One shard of a block: its chunk, if it has one, and the receipt outcomes
/// executed in it.
#[derive(Clone, Debug)]
pub struct Shard {
    pub chunk: Option<Chunk>,
    pub receipt_execution_outcomes: Vec<ExecutionOutcome>,
}

/// One block of the stream.
#[derive(Clone, Debug)]
pub struct BlockRecord {
    pub height: u64,
    pub shards: Vec<Shard>,
}

/// The transactions of a shard; none when it has no chunk.
pub open spec fn shard_transactions(s: Shard) -> Seq<Transaction> {
    match s.chunk {
        Some(c) => c.transactions@,
        None => Seq::empty(),
    }
}

/// All receipt outcomes of the shards, shard by shard.
pub open spec fn all_outcomes(shards: Seq<Shard>) -> Seq<ExecutionOutcome>
    decreases shards.len(),
{
    if shards.len() == 0 {
        Seq::empty()
    } else {
        all_outcomes(shards.drop_last()) + shards.last().receipt_execution_outcomes@
    }
}

/// All transactions of the shards' chunks, shard by shard.
pub open spec fn all_transactions(shards: Seq<Shard>) -> Seq<Transaction>
    decreases shards.len(),
{
    if shards.len() == 0 {
        Seq::empty()
    } else {
        all_transactions(shards.drop_last()) + shard_transactions(shards.last())
    }
}

/// Whether `account` is one of the watched accounts.
pub open spec fn is_watched(watched: Seq<String>, account: Seq<char>) -> bool {
    exists|i: int| 0 <= i < watched.len() && (#[trigger] watched[i])@ == account
}

/// Whether `account` is one of the watched accounts.
pub fn watches(watched: &Vec<String>, account: &String) -> (r: bool)
    ensures
        r == is_watched(watched@, account@),
{
    let mut i: usize = 0;
    while i < watched.len()
        invariant
            i <= watched@.len(),
            forall|k: int| 0 <= k < i ==> (#[trigger] watched@[k])@ != account@,
        decreases watched@.len() - i,
    {
        if watched[i] == *account {
            return true;
        }
        i = i + 1;
    }
    false
}

} // verus!
