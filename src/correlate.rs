//! Correlation of one block: which of its receipts belong to which
//! transaction, and whether the block concerns a watched account.
use vstd::prelude::*;
use crate::pairs::{
    lemma_pairs_map_update, lemma_take_more, lookup, pairs_map, resolve, string_views, unique_keys,
};
use crate::block::{
    all_outcomes, all_transactions, is_watched, watches, BlockRecord, ExecutionOutcome,
    ExecutionStatus, Shard, Transaction,
};

verus! {

/// The receipt-to-transaction mapping of one block: receipt ids as keys,
/// transaction hashes as values, each key once.
pub struct ReceiptTxMap {
    entries: Vec<(String, String)>,
}

impl View for ReceiptTxMap {
    type V = Map<Seq<char>, Seq<char>>;

    open spec fn view(&self) -> Map<Seq<char>, Seq<char>> {
        pairs_map(self.pairs())
    }
}

impl ReceiptTxMap {
    /// The pairs, in the order in which their keys were first inserted.
    pub closed spec fn pairs(&self) -> Seq<(String, String)> {
        self.entries@
    }

    /// Each receipt id is held once.
    pub open spec fn wf(&self) -> bool {
        unique_keys(self.pairs())
    }

    pub fn new() -> (r: ReceiptTxMap)
        ensures
            r.wf(),
            r.pairs().len() == 0,
            r@ == Map::<Seq<char>, Seq<char>>::empty(),
    {
        ReceiptTxMap { entries: Vec::new() }
    }

    /// The pairs held.
    pub fn entries(&self) -> (r: &Vec<(String, String)>)
        ensures
            r@ == self.pairs(),
    {
        &self.entries
    }

    pub fn len(&self) -> (r: usize)
        ensures
            r == self.pairs().len(),
    {
        self.entries.len()
    }

    /// Maps `receipt` to `tx`, replacing what `receipt` was mapped to.
    pub fn insert(&mut self, receipt: String, tx: String)
        requires
            old(self).wf(),
        ensures
            final(self).wf(),
            final(self)@ == old(self)@.insert(receipt@, tx@),
    {
        let mut i: usize = 0;
        while i < self.entries.len()
            invariant
                i <= self.entries@.len(),
                self.entries@ == old(self).entries@,
                unique_keys(self.entries@),
                forall|k: int| 0 <= k < i ==> (#[trigger] self.entries@[k]).0@ != receipt@,
            decreases self.entries@.len() - i,
        {
            if self.entries[i].0 == receipt {
                proof {
                    lemma_pairs_map_update(self.entries@, i as int, (receipt, tx));
                }
                self.entries.set(i, (receipt, tx));
                return;
            }
            i = i + 1;
        }
        let ghost before = self.entries@;
        let ghost e = (receipt, tx);
        self.entries.push((receipt, tx));
        assert(self.entries@.drop_last() =~= before);
        assert(self.entries@.last() == e);
        assert forall|a: int, b: int|
            0 <= a < self.entries@.len() && 0 <= b < self.entries@.len() && a != b
            implies (#[trigger] self.entries@[a]).0@ != (#[trigger] self.entries@[b]).0@ by {
            if a < before.len() && b < before.len() {
                assert(before[a] == self.entries@[a] && before[b] == self.entries@[b]);
            } else if a < before.len() {
                assert(before[a] == self.entries@[a]);
            } else {
                assert(before[b] == self.entries@[b]);
            }
        }
    }
}

/// An outcome counts when its status is known and a watched account executed it.
pub open spec fn is_valid(o: ExecutionOutcome, watched: Seq<String>) -> bool {
    !(o.status is Unknown) && is_watched(watched, o.executor_id@)
}

/// Some outcome counts.
pub open spec fn any_valid(outs: Seq<ExecutionOutcome>, watched: Seq<String>) -> bool
    decreases outs.len(),
{
    outs.len() > 0 && (any_valid(outs.drop_last(), watched) || is_valid(outs.last(), watched))
}

/// The ids of the outcomes that count, in order.
pub open spec fn valid_ids(outs: Seq<ExecutionOutcome>, watched: Seq<String>) -> Seq<Seq<char>>
    decreases outs.len(),
{
    if outs.len() == 0 {
        Seq::empty()
    } else if is_valid(outs.last(), watched) {
        valid_ids(outs.drop_last(), watched).push(outs.last().id@)
    } else {
        valid_ids(outs.drop_last(), watched)
    }
}

/// `m` with each of `keys` mapped to `v`.
pub open spec fn with_all(m: Map<Seq<char>, Seq<char>>, keys: Seq<String>, v: Seq<char>) -> Map<
    Seq<char>,
    Seq<char>,
>
    decreases keys.len(),
{
    if keys.len() == 0 {
        m
    } else {
        with_all(m, keys.drop_last(), v).insert(keys.last()@, v)
    }
}

/// One outcome of the first pass: a counting outcome whose own id resolves
/// to a transaction maps each receipt it spawned to that transaction.
pub open spec fn outcome_step(
    m: Map<Seq<char>, Seq<char>>,
    o: ExecutionOutcome,
    watched: Seq<String>,
    resolved: Seq<(String, String)>,
) -> Map<Seq<char>, Seq<char>> {
    if is_valid(o, watched) {
        match lookup(resolved, o.id@) {
            Some(tx) => with_all(m, o.receipt_ids@, tx),
            None => m,
        }
    } else {
        m
    }
}

/// The first pass over the outcomes.
pub open spec fn outcome_pass(
    outs: Seq<ExecutionOutcome>,
    watched: Seq<String>,
    resolved: Seq<(String, String)>,
) -> Map<Seq<char>, Seq<char>>
    decreases outs.len(),
{
    if outs.len() == 0 {
        Map::empty()
    } else {
        outcome_step(outcome_pass(outs.drop_last(), watched, resolved), outs.last(), watched, resolved)
    }
}

/// One transaction of the second pass: a transaction to a watched account
/// that became a receipt maps that receipt to its own hash, overriding the
/// first pass.
pub open spec fn transaction_step(m: Map<Seq<char>, Seq<char>>, t: Transaction, watched: Seq<String>) -> Map<
    Seq<char>,
    Seq<char>,
> {
    match t.status {
        ExecutionStatus::SuccessReceiptId(r) => if is_watched(watched, t.receiver_id@) {
            m.insert(r@, t.hash@)
        } else {
            m
        },
        _ => m,
    }
}

/// The second pass over the transactions, starting from `m`.
pub open spec fn transaction_pass(m: Map<Seq<char>, Seq<char>>, txs: Seq<Transaction>, watched: Seq<String>) -> Map<
    Seq<char>,
    Seq<char>,
>
    decreases txs.len(),
{
    if txs.len() == 0 {
        m
    } else {
        transaction_step(transaction_pass(m, txs.drop_last(), watched), txs.last(), watched)
    }
}

/// Whether the block concerns a watched account.
pub open spec fn block_relevant(b: BlockRecord, watched: Seq<String>) -> bool {
    any_valid(all_outcomes(b.shards@), watched)
}

/// The receipt-to-transaction mapping of a block, given the store's answers
/// for the ids of its counting outcomes.
pub open spec fn block_mapping(b: BlockRecord, watched: Seq<String>, resolved: Seq<(String, String)>) -> Map<
    Seq<char>,
    Seq<char>,
> {
    transaction_pass(
        outcome_pass(all_outcomes(b.shards@), watched, resolved),
        all_transactions(b.shards@),
        watched,
    )
}

/// The ids that the store is asked about for a block.
pub open spec fn ids_to_resolve(b: BlockRecord, watched: Seq<String>) -> Seq<Seq<char>> {
    valid_ids(all_outcomes(b.shards@), watched)
}

proof fn lemma_concat_more<T>(a: Seq<T>, s: Seq<T>, i: int)
    requires
        0 <= i < s.len(),
    ensures
        (a + s.take(i + 1)).drop_last() == a + s.take(i),
        (a + s.take(i + 1)).last() == s[i],
{
    assert((a + s.take(i + 1)).drop_last() =~= a + s.take(i));
}

/// Whether an outcome counts: its status is known and a watched account
/// executed it.
pub fn is_valid_receipt(o: &ExecutionOutcome, watched: &Vec<String>) -> (r: bool)
    ensures
        r == is_valid(*o, watched@),
{
    match o.status {
        ExecutionStatus::Unknown => false,
        _ => watches(watched, &o.executor_id),
    }
}

/// Maps each of `keys` to `tx`.
fn insert_all(map: &mut ReceiptTxMap, keys: &Vec<String>, tx: &String)
    requires
        old(map).wf(),
    ensures
        final(map).wf(),
        final(map)@ == with_all(old(map)@, keys@, tx@),
{
    let mut k: usize = 0;
    while k < keys.len()
        invariant
            k <= keys@.len(),
            map.wf(),
            map@ == with_all(old(map)@, keys@.take(k as int), tx@),
        decreases keys@.len() - k,
    {
        proof {
            lemma_take_more(keys@, k as int);
        }
        map.insert(keys[k].clone(), tx.clone());
        k = k + 1;
    }
    assert(keys@.take(keys@.len() as int) =~= keys@);
}

/// The ids of the block's counting outcomes, in order: the keys whose stored
/// transactions the first pass needs.
pub fn outcome_ids_to_resolve(block: &BlockRecord, watched: &Vec<String>) -> (r: Vec<String>)
    ensures
        string_views(r@) == ids_to_resolve(*block, watched@),
{
    let mut r: Vec<String> = Vec::new();
    let mut i: usize = 0;
    while i < block.shards.len()
        invariant
            i <= block.shards@.len(),
            string_views(r@) == valid_ids(all_outcomes(block.shards@.take(i as int)), watched@),
        decreases block.shards@.len() - i,
    {
        proof {
            lemma_take_more(block.shards@, i as int);
        }
        let ghost prefix = all_outcomes(block.shards@.take(i as int));
        let outs = &block.shards[i].receipt_execution_outcomes;
        let mut j: usize = 0;
        while j < outs.len()
            invariant
                j <= outs@.len(),
                string_views(r@) == valid_ids(prefix + outs@.take(j as int), watched@),
            decreases outs@.len() - j,
        {
            proof {
                lemma_concat_more(prefix, outs@, j as int);
            }
            if is_valid_receipt(&outs[j], watched) {
                let ghost before = r@;
                r.push(outs[j].id.clone());
                assert(string_views(r@) =~= string_views(before).push(outs@[j as int].id@));
            }
            j = j + 1;
        }
        assert(outs@.take(outs@.len() as int) =~= outs@);
        i = i + 1;
    }
    assert(block.shards@.take(block.shards@.len() as int) =~= block.shards@);
    r
}

/// The result of correlating one block.
pub struct Correlation {
    /// The block concerns a watched account.
    pub relevant: bool,
    /// The receipts of the block, each with the transaction that caused it.
    pub mapping: ReceiptTxMap,
}

/// The first pass, over the receipt outcomes of the block.
fn outcomes_pass(block: &BlockRecord, watched: &Vec<String>, resolved: &Vec<(String, String)>, map: &mut ReceiptTxMap) -> (relevant: bool)
    requires
        old(map).wf(),
        old(map)@ == Map::<Seq<char>, Seq<char>>::empty(),
    ensures
        final(map).wf(),
        final(map)@ == outcome_pass(all_outcomes(block.shards@), watched@, resolved@),
        relevant == block_relevant(*block, watched@),
{
    let mut relevant = false;
    let mut i: usize = 0;
    while i < block.shards.len()
        invariant
            i <= block.shards@.len(),
            map.wf(),
            map@ == outcome_pass(all_outcomes(block.shards@.take(i as int)), watched@, resolved@),
            relevant == any_valid(all_outcomes(block.shards@.take(i as int)), watched@),
        decreases block.shards@.len() - i,
    {
        proof {
            lemma_take_more(block.shards@, i as int);
        }
        let ghost prefix = all_outcomes(block.shards@.take(i as int));
        let outs = &block.shards[i].receipt_execution_outcomes;
        let mut j: usize = 0;
        while j < outs.len()
            invariant
                j <= outs@.len(),
                map.wf(),
                map@ == outcome_pass(prefix + outs@.take(j as int), watched@, resolved@),
                relevant == any_valid(prefix + outs@.take(j as int), watched@),
            decreases outs@.len() - j,
        {
            proof {
                lemma_concat_more(prefix, outs@, j as int);
            }
            let o = &outs[j];
            if is_valid_receipt(o, watched) {
                relevant = true;
                match resolve(resolved, &o.id) {
                    Some(tx) => insert_all(map, &o.receipt_ids, &tx),
                    None => {},
                }
            }
            j = j + 1;
        }
        assert(outs@.take(outs@.len() as int) =~= outs@);
        i = i + 1;
    }
    assert(block.shards@.take(block.shards@.len() as int) =~= block.shards@);
    relevant
}

/// The second pass, over the transactions of the block's chunks.
fn transactions_pass(block: &BlockRecord, watched: &Vec<String>, map: &mut ReceiptTxMap)
    requires
        old(map).wf(),
    ensures
        final(map).wf(),
        final(map)@ == transaction_pass(old(map)@, all_transactions(block.shards@), watched@),
{
    let ghost start = map@;
    let mut i: usize = 0;
    while i < block.shards.len()
        invariant
            i <= block.shards@.len(),
            map.wf(),
            start == old(map)@,
            map@ == transaction_pass(start, all_transactions(block.shards@.take(i as int)), watched@),
        decreases block.shards@.len() - i,
    {
        proof {
            lemma_take_more(block.shards@, i as int);
        }
        let ghost prefix = all_transactions(block.shards@.take(i as int));
        match &block.shards[i].chunk {
            Some(chunk) => {
                let txs = &chunk.transactions;
                let mut j: usize = 0;
                while j < txs.len()
                    invariant
                        j <= txs@.len(),
                        map.wf(),
                        map@ == transaction_pass(start, prefix + txs@.take(j as int), watched@),
                    decreases txs@.len() - j,
                {
                    proof {
                        lemma_concat_more(prefix, txs@, j as int);
                    }
                    let t = &txs[j];
                    match &t.status {
                        ExecutionStatus::SuccessReceiptId(r) => {
                            if watches(watched, &t.receiver_id) {
                                map.insert(r.clone(), t.hash.clone());
                            }
                        },
                        _ => {},
                    }
                    j = j + 1;
                }
                assert(txs@.take(txs@.len() as int) =~= txs@);
            },
            None => {
                assert(prefix + Seq::<Transaction>::empty() =~= prefix);
            },
        }
        i = i + 1;
    }
    assert(block.shards@.take(block.shards@.len() as int) =~= block.shards@);
}

/// Correlates one block: the block is relevant when one of its receipt
/// outcomes counts. Each counting outcome whose own id the store resolved to
/// a transaction (`resolved` holds the store's answers) maps the receipts it
/// spawned to that transaction; then each transaction to a watched account
/// that became a receipt maps that receipt to its own hash, overriding.
pub fn correlate(block: &BlockRecord, watched: &Vec<String>, resolved: &Vec<(String, String)>) -> (r: Correlation)
    ensures
        r.mapping.wf(),
        r.relevant == block_relevant(*block, watched@),
        r.mapping@ == block_mapping(*block, watched@, resolved@),
{
    let mut mapping = ReceiptTxMap::new();
    let relevant = outcomes_pass(block, watched, resolved, &mut mapping);
    transactions_pass(block, watched, &mut mapping);
    Correlation { relevant, mapping }
}

proof fn lemma_quiet_outcomes(outs: Seq<ExecutionOutcome>, watched: Seq<String>, resolved: Seq<(String, String)>)
    requires
        forall|i: int| 0 <= i < outs.len() ==> !is_watched(watched, (#[trigger] outs[i]).executor_id@),
    ensures
        !any_valid(outs, watched),
        outcome_pass(outs, watched, resolved) == Map::<Seq<char>, Seq<char>>::empty(),
    decreases outs.len(),
{
    if outs.len() > 0 {
        assert forall|i: int| 0 <= i < outs.drop_last().len() implies !is_watched(
            watched,
            (#[trigger] outs.drop_last()[i]).executor_id@,
        ) by {
            assert(outs.drop_last()[i] == outs[i]);
        }
        lemma_quiet_outcomes(outs.drop_last(), watched, resolved);
        assert(outs.last() == outs[outs.len() - 1]);
    }
}

proof fn lemma_quiet_transactions(m: Map<Seq<char>, Seq<char>>, txs: Seq<Transaction>, watched: Seq<String>)
    requires
        forall|i: int| 0 <= i < txs.len() ==> !is_watched(watched, (#[trigger] txs[i]).receiver_id@),
    ensures
        transaction_pass(m, txs, watched) == m,
    decreases txs.len(),
{
    if txs.len() > 0 {
        assert forall|i: int| 0 <= i < txs.drop_last().len() implies !is_watched(
            watched,
            (#[trigger] txs.drop_last()[i]).receiver_id@,
        ) by {
            assert(txs.drop_last()[i] == txs[i]);
        }
        lemma_quiet_transactions(m, txs.drop_last(), watched);
        assert(txs.last() == txs[txs.len() - 1]);
    }
}

/// A block in which no watched account executed a receipt and no transaction
/// goes to a watched account is not relevant and maps no receipt, whatever
/// the store answers.
pub proof fn lemma_quiet_block(b: BlockRecord, watched: Seq<String>, resolved: Seq<(String, String)>)
    requires
        forall|i: int|
            0 <= i < all_outcomes(b.shards@).len() ==> !is_watched(
                watched,
                (#[trigger] all_outcomes(b.shards@)[i]).executor_id@,
            ),
        forall|i: int|
            0 <= i < all_transactions(b.shards@).len() ==> !is_watched(
                watched,
                (#[trigger] all_transactions(b.shards@)[i]).receiver_id@,
            ),
    ensures
        !block_relevant(b, watched),
        block_mapping(b, watched, resolved) == Map::<Seq<char>, Seq<char>>::empty(),
{
    lemma_quiet_outcomes(all_outcomes(b.shards@), watched, resolved);
    lemma_quiet_transactions(Map::empty(), all_transactions(b.shards@), watched);
}

} // verus!
