//! What the store is asked to do for one block, and in which order: the
//! receipt mappings first, then, for a relevant block, the push of the block
//! and the checkpoint; for another block the checkpoint only on the cadence.
use vstd::prelude::*;
use crate::block::BlockRecord;
use crate::correlate::{block_mapping, block_relevant, correlate, Correlation};
use crate::pairs::{pairs_map, unique_keys};

verus! {

/// Every this many heights an irrelevant block still writes the checkpoint.
pub const CHECKPOINT_CADENCE: u64 = 100;

/// One operation on the store.
#[derive(Clone, Debug, PartialEq, Eq)]
pub enum StoreOp {
    /// Store the transaction hash under the receipt id.
    SetMapping(String, String),
    /// Push the serialized block to the downstream list.
    PushBlock,
    /// Write the checkpoint: the last height accounted for.
    WriteCheckpoint(u64),
}

/// One mapping write per pair, in the pairs' order.
pub open spec fn mapping_ops(pairs: Seq<(String, String)>) -> Seq<StoreOp> {
    pairs.map_values(|p: (String, String)| StoreOp::SetMapping(p.0, p.1))
}

/// The checkpoint written for a block, if any.
pub open spec fn checkpoint_for(height: u64, relevant: bool) -> Option<u64> {
    if relevant || height % CHECKPOINT_CADENCE == 0 {
        Some(height)
    } else {
        None
    }
}

/// What follows the mapping writes.
pub open spec fn closing_ops(height: u64, relevant: bool) -> Seq<StoreOp> {
    if relevant {
        seq![StoreOp::PushBlock, StoreOp::WriteCheckpoint(height)]
    } else if height % CHECKPOINT_CADENCE == 0 {
        seq![StoreOp::WriteCheckpoint(height)]
    } else {
        Seq::empty()
    }
}

/// All operations for a block of this height.
pub open spec fn block_ops(height: u64, relevant: bool, pairs: Seq<(String, String)>) -> Seq<StoreOp> {
    mapping_ops(pairs) + closing_ops(height, relevant)
}

/// The operations for a correlated block: a write of each mapping, then,
/// when the block is relevant, the push of the block and the checkpoint at
/// its height; otherwise the checkpoint only at a multiple of the cadence.
pub fn publish_ops(height: u64, c: &Correlation) -> (ops: Vec<StoreOp>)
    ensures
        ops@ == block_ops(height, c.relevant, c.mapping.pairs()),
{
    let entries = c.mapping.entries();
    let mut ops: Vec<StoreOp> = Vec::new();
    let mut i: usize = 0;
    while i < entries.len()
        invariant
            i <= entries@.len(),
            entries@ == c.mapping.pairs(),
            ops@ == mapping_ops(entries@.take(i as int)),
        decreases entries@.len() - i,
    {
        let ghost before = ops@;
        ops.push(StoreOp::SetMapping(entries[i].0.clone(), entries[i].1.clone()));
        assert(ops@ =~= mapping_ops(entries@.take(i as int + 1))) by {
            assert(entries@.take(i as int + 1) =~= entries@.take(i as int).push(entries@[i as int]));
        };
        i = i + 1;
    }
    assert(entries@.take(entries@.len() as int) =~= entries@);
    let ghost mapped = ops@;
    if c.relevant {
        ops.push(StoreOp::PushBlock);
        ops.push(StoreOp::WriteCheckpoint(height));
    } else if height % CHECKPOINT_CADENCE == 0 {
        ops.push(StoreOp::WriteCheckpoint(height));
    }
    assert(ops@ =~= mapped + closing_ops(height, c.relevant));
    ops
}

/// The whole handling of one block: correlation, given the store's answers
/// for the ids of its counting outcomes, then the operations it asks for.
/// The mapping writes cover the block's mapping, each receipt once.
pub fn handle_streamer_message(block: &BlockRecord, watched: &Vec<String>, resolved: &Vec<(String, String)>) -> (ops: Vec<StoreOp>)
    ensures
        exists|pairs: Seq<(String, String)>|
            unique_keys(pairs) && pairs_map(pairs) == block_mapping(*block, watched@, resolved@)
                && ops@ == block_ops(block.height, block_relevant(*block, watched@), pairs),
{
    let c = correlate(block, watched, resolved);
    let ops = publish_ops(block.height, &c);
    assert(unique_keys(c.mapping.pairs()));
    ops
}

/// The key-value part of the store after an operation.
pub open spec fn apply_op(kv: Map<Seq<char>, Seq<char>>, op: StoreOp) -> Map<Seq<char>, Seq<char>> {
    match op {
        StoreOp::SetMapping(k, v) => kv.insert(k@, v@),
        _ => kv,
    }
}

/// The key-value part of the store after operations, in order.
pub open spec fn apply_ops(kv: Map<Seq<char>, Seq<char>>, ops: Seq<StoreOp>) -> Map<Seq<char>, Seq<char>>
    decreases ops.len(),
{
    if ops.len() == 0 {
        kv
    } else {
        apply_op(apply_ops(kv, ops.drop_last()), ops.last())
    }
}

/// The checkpoint writes among operations, in order.
pub open spec fn checkpoint_writes(ops: Seq<StoreOp>) -> Seq<u64>
    decreases ops.len(),
{
    if ops.len() == 0 {
        Seq::empty()
    } else {
        match ops.last() {
            StoreOp::WriteCheckpoint(h) => checkpoint_writes(ops.drop_last()).push(h),
            _ => checkpoint_writes(ops.drop_last()),
        }
    }
}

/// The operations of a run over blocks, each given by its height, its
/// relevance and its mapping pairs.
pub open spec fn run_ops(blocks: Seq<(u64, bool, Seq<(String, String)>)>) -> Seq<StoreOp>
    decreases blocks.len(),
{
    if blocks.len() == 0 {
        Seq::empty()
    } else {
        run_ops(blocks.drop_last()) + block_ops(blocks.last().0, blocks.last().1, blocks.last().2)
    }
}

proof fn lemma_mapping_ops_store(kv: Map<Seq<char>, Seq<char>>, pairs: Seq<(String, String)>)
    ensures
        apply_ops(kv, mapping_ops(pairs)) == kv.union_prefer_right(pairs_map(pairs)),
    decreases pairs.len(),
{
    if pairs.len() == 0 {
        assert(kv.union_prefer_right(pairs_map(pairs)) =~= kv);
    } else {
        lemma_mapping_ops_store(kv, pairs.drop_last());
        assert(mapping_ops(pairs).drop_last() =~= mapping_ops(pairs.drop_last()));
        assert(apply_ops(kv, mapping_ops(pairs)) =~= kv.union_prefer_right(pairs_map(pairs)));
    }
}

/// Writing a block's mappings a second time, with the same pairs, leaves the
/// store as the first time did: writes overwrite, they do not accumulate.
pub proof fn lemma_mapping_writes_idempotent(kv: Map<Seq<char>, Seq<char>>, pairs: Seq<(String, String)>)
    ensures
        apply_ops(apply_ops(kv, mapping_ops(pairs)), mapping_ops(pairs)) == apply_ops(kv, mapping_ops(pairs)),
{
    lemma_mapping_ops_store(kv, pairs);
    lemma_mapping_ops_store(apply_ops(kv, mapping_ops(pairs)), pairs);
    assert(kv.union_prefer_right(pairs_map(pairs)).union_prefer_right(pairs_map(pairs))
        =~= kv.union_prefer_right(pairs_map(pairs)));
}

/// A relevant block pushes the block and then writes the checkpoint at its
/// height, and both come after every mapping write of the block.
pub proof fn lemma_relevant_block_publishes(height: u64, pairs: Seq<(String, String)>)
    ensures
        ({
            let ops = block_ops(height, true, pairs);
            &&& ops.len() == pairs.len() + 2
            &&& ops[ops.len() - 2] == StoreOp::PushBlock
            &&& ops[ops.len() - 1] == StoreOp::WriteCheckpoint(height)
            &&& forall|i: int| 0 <= i < ops.len() - 2 ==> (#[trigger] ops[i]) is SetMapping
        }),
{
    let ops = block_ops(height, true, pairs);
    assert forall|i: int| 0 <= i < ops.len() - 2 implies (#[trigger] ops[i]) is SetMapping by {
        assert(ops[i] == mapping_ops(pairs)[i]);
    }
}

proof fn lemma_checkpoint_writes_concat(a: Seq<StoreOp>, b: Seq<StoreOp>)
    ensures
        checkpoint_writes(a + b) == checkpoint_writes(a) + checkpoint_writes(b),
    decreases b.len(),
{
    if b.len() == 0 {
        assert(a + b =~= a);
        assert(checkpoint_writes(a) + checkpoint_writes(b) =~= checkpoint_writes(a));
    } else {
        lemma_checkpoint_writes_concat(a, b.drop_last());
        assert((a + b).drop_last() =~= a + b.drop_last());
        assert((a + b).last() == b.last());
        match b.last() {
            StoreOp::WriteCheckpoint(h) => {
                assert(checkpoint_writes(a) + checkpoint_writes(b) =~= (checkpoint_writes(a)
                    + checkpoint_writes(b.drop_last())).push(h));
            },
            _ => {},
        }
    }
}

proof fn lemma_block_checkpoint_writes(height: u64, relevant: bool, pairs: Seq<(String, String)>)
    ensures
        checkpoint_writes(block_ops(height, relevant, pairs)) == match checkpoint_for(height, relevant) {
            Some(h) => seq![h],
            None => Seq::<u64>::empty(),
        },
{
    assert(checkpoint_writes(mapping_ops(pairs)) =~= Seq::<u64>::empty()) by {
        lemma_no_checkpoint_in_mappings(pairs);
    };
    lemma_checkpoint_writes_concat(mapping_ops(pairs), closing_ops(height, relevant));
    let c = closing_ops(height, relevant);
    let e = Seq::<StoreOp>::empty();
    assert(checkpoint_writes(e) == Seq::<u64>::empty());
    if relevant {
        assert(c.drop_last() =~= seq![StoreOp::PushBlock]);
        assert(seq![StoreOp::PushBlock].drop_last() =~= e);
        assert(seq![StoreOp::PushBlock].last() == StoreOp::PushBlock);
        assert(checkpoint_writes(seq![StoreOp::PushBlock]) == checkpoint_writes(e));
        assert(c.last() == StoreOp::WriteCheckpoint(height));
        assert(checkpoint_writes(c) =~= checkpoint_writes(e).push(height));
    } else if height % CHECKPOINT_CADENCE == 0 {
        assert(c.drop_last() =~= e);
        assert(c.last() == StoreOp::WriteCheckpoint(height));
        assert(checkpoint_writes(c) =~= checkpoint_writes(e).push(height));
    }
    assert(checkpoint_writes(block_ops(height, relevant, pairs)) =~= checkpoint_writes(c));
}

proof fn lemma_no_checkpoint_in_mappings(pairs: Seq<(String, String)>)
    ensures
        checkpoint_writes(mapping_ops(pairs)).len() == 0,
    decreases pairs.len(),
{
    if pairs.len() > 0 {
        assert(mapping_ops(pairs).drop_last() =~= mapping_ops(pairs.drop_last()));
        lemma_no_checkpoint_in_mappings(pairs.drop_last());
    }
}

/// Heights do not decrease along the run.
pub open spec fn heights_non_decreasing(blocks: Seq<(u64, bool, Seq<(String, String)>)>) -> bool {
    forall|i: int, j: int| 0 <= i <= j < blocks.len() ==> (#[trigger] blocks[i]).0 <= (#[trigger] blocks[j]).0
}

proof fn lemma_run_checkpoints_bounded(blocks: Seq<(u64, bool, Seq<(String, String)>)>)
    requires
        blocks.len() > 0,
        heights_non_decreasing(blocks),
    ensures
        forall|k: int|
            0 <= k < checkpoint_writes(run_ops(blocks)).len() ==> #[trigger] checkpoint_writes(run_ops(blocks))[k]
                <= blocks.last().0,
    decreases blocks.len(),
{
    let last = blocks.last();
    let init = blocks.drop_last();
    lemma_checkpoint_writes_concat(run_ops(init), block_ops(last.0, last.1, last.2));
    lemma_block_checkpoint_writes(last.0, last.1, last.2);
    if init.len() > 0 {
        assert(heights_non_decreasing(init)) by {
            assert forall|i: int, j: int| 0 <= i <= j < init.len() implies (#[trigger] init[i]).0 <= (#[trigger] init[j]).0 by {
                assert(init[i] == blocks[i] && init[j] == blocks[j]);
            }
        };
        lemma_run_checkpoints_bounded(init);
        assert(init.last() == blocks[blocks.len() - 2]);
        assert(blocks[blocks.len() - 2].0 <= blocks[blocks.len() - 1].0);
    }
}

/// Along a run whose heights do not decrease, each checkpoint written is at
/// least every checkpoint written before it.
pub proof fn lemma_checkpoints_monotonic(blocks: Seq<(u64, bool, Seq<(String, String)>)>)
    requires
        heights_non_decreasing(blocks),
    ensures
        forall|i: int, j: int|
            0 <= i <= j < checkpoint_writes(run_ops(blocks)).len() ==> #[trigger] checkpoint_writes(run_ops(blocks))[i]
                <= #[trigger] checkpoint_writes(run_ops(blocks))[j],
    decreases blocks.len(),
{
    if blocks.len() > 0 {
        let last = blocks.last();
        let init = blocks.drop_last();
        assert(heights_non_decreasing(init)) by {
            assert forall|i: int, j: int| 0 <= i <= j < init.len() implies (#[trigger] init[i]).0 <= (#[trigger] init[j]).0 by {
                assert(init[i] == blocks[i] && init[j] == blocks[j]);
            }
        };
        lemma_checkpoints_monotonic(init);
        lemma_checkpoint_writes_concat(run_ops(init), block_ops(last.0, last.1, last.2));
        lemma_block_checkpoint_writes(last.0, last.1, last.2);
        if init.len() > 0 {
            lemma_run_checkpoints_bounded(init);
            assert(init.last() == blocks[blocks.len() - 2]);
            assert(blocks[blocks.len() - 2].0 <= blocks[blocks.len() - 1].0);
        }
    }
}

} // verus!
