use vstd::prelude::*;

use crate::primitives::{Transaction, TransactionV, tx_views};
use crate::primitives::Chain;

verus! {

/// The storage key of a canonical transaction: (chain, hash) uniquely
/// identifies it, so re-ingesting a height upserts instead of duplicating.
pub type TxKey = (Chain, Seq<char>);

pub open spec fn tx_key(t: TransactionV) -> TxKey {
    (t.asset_id.chain, t.hash)
}

/// The columns an upsert refreshes on conflict; identity and content
/// columns of the stored row are kept.
pub open spec fn merge_row(old_row: TransactionV, new: TransactionV) -> TransactionV {
    TransactionV {
        id: old_row.id,
        hash: old_row.hash,
        asset_id: old_row.asset_id,
        from: old_row.from,
        to: old_row.to,
        contract: old_row.contract,
        transaction_type: old_row.transaction_type,
        state: old_row.state,
        block_number: new.block_number,
        sequence: new.sequence,
        fee: new.fee,
        fee_asset_id: new.fee_asset_id,
        value: old_row.value,
        memo: new.memo,
        direction: old_row.direction,
        created_at: old_row.created_at,
        updated_at: new.updated_at,
    }
}

/// One transaction upserted into the store's contents, keyed on
/// (chain, hash): a fresh key inserts the row, an existing key refreshes
/// the merged columns and never duplicates.
pub open spec fn spec_upsert_one(m: Map<TxKey, TransactionV>, t: TransactionV) -> Map<
    TxKey,
    TransactionV,
> {
    if m.dom().contains(tx_key(t)) {
        m.insert(tx_key(t), merge_row(m[tx_key(t)], t))
    } else {
        m.insert(tx_key(t), t)
    }
}

/// A whole batch upserted in order.
pub open spec fn spec_upsert(m: Map<TxKey, TransactionV>, b: Seq<TransactionV>) -> Map<
    TxKey,
    TransactionV,
>
    decreases b.len(),
{
    if b.len() == 0 {
        m
    } else {
        spec_upsert_one(spec_upsert(m, b.drop_last()), b.last())
    }
}

pub open spec fn batch_has_key(b: Seq<TransactionV>, k: TxKey) -> bool {
    exists|i: int| 0 <= i < b.len() && tx_key(#[trigger] b[i]) == k
}

spec fn first_with_key(b: Seq<TransactionV>, k: TxKey) -> TransactionV
    recommends
        batch_has_key(b, k),
    decreases b.len(),
{
    if b.len() == 0 {
        b[0]
    } else if batch_has_key(b.drop_last(), k) {
        first_with_key(b.drop_last(), k)
    } else {
        b.last()
    }
}

spec fn last_with_key(b: Seq<TransactionV>, k: TxKey) -> TransactionV
    recommends
        batch_has_key(b, k),
    decreases b.len(),
{
    if b.len() == 0 {
        b[0]
    } else if tx_key(b.last()) == k {
        b.last()
    } else {
        last_with_key(b.drop_last(), k)
    }
}

spec fn base_at(m: Map<TxKey, TransactionV>, b: Seq<TransactionV>, k: TxKey) -> TransactionV {
    if m.dom().contains(k) {
        m[k]
    } else {
        first_with_key(b, k)
    }
}

/// Where each key of an upserted store comes from: a key is present after
/// the batch exactly when it was present before or the batch carries it;
/// a key the batch carries holds the merged columns of the batch's last row
/// under that key over the store's previous row (or the batch's first row
/// under that key, where the store had none); any other key is untouched.
proof fn lemma_upsert_characterization(
    m: Map<TxKey, TransactionV>,
    b: Seq<TransactionV>,
    k: TxKey,
)
    ensures
        spec_upsert(m, b).dom().contains(k) <==> (m.dom().contains(k) || batch_has_key(b, k)),
        batch_has_key(b, k) ==> spec_upsert(m, b)[k] == merge_row(
            base_at(m, b, k),
            last_with_key(b, k),
        ),
        !batch_has_key(b, k) && m.dom().contains(k) ==> spec_upsert(m, b)[k] == m[k],
    decreases b.len(),
{
    if b.len() == 0 {
    } else {
        let c = b.drop_last();
        let t = b.last();
        lemma_upsert_characterization(m, c, k);
        let mm = spec_upsert(m, c);
        assert(forall|i: int| 0 <= i < c.len() ==> c[i] == b[i]);
        if tx_key(t) == k {
            assert(tx_key(b[b.len() - 1]) == k);
            assert(batch_has_key(b, k));
            assert(last_with_key(b, k) == t);
            if batch_has_key(c, k) {
                assert(first_with_key(b, k) == first_with_key(c, k));
                assert(mm[k] == merge_row(base_at(m, c, k), last_with_key(c, k)));
                assert(merge_row(merge_row(base_at(m, c, k), last_with_key(c, k)), t)
                    == merge_row(base_at(m, c, k), t));
                assert(base_at(m, b, k) == base_at(m, c, k));
            } else {
                if m.dom().contains(k) {
                    assert(mm[k] == m[k]);
                } else {
                    assert(!mm.dom().contains(k));
                    assert(first_with_key(b, k) == t);
                    assert(merge_row(t, t) == t);
                }
            }
        } else {
            assert(batch_has_key(b, k) <==> batch_has_key(c, k)) by {
                if batch_has_key(b, k) {
                    let i = choose|i: int| 0 <= i < b.len() && tx_key(#[trigger] b[i]) == k;
                    assert(i < c.len());
                    assert(tx_key(c[i]) == k);
                }
                if batch_has_key(c, k) {
                    let i = choose|i: int| 0 <= i < c.len() && tx_key(#[trigger] c[i]) == k;
                    assert(tx_key(b[i]) == k);
                }
            }
            if batch_has_key(c, k) {
                assert(last_with_key(b, k) == last_with_key(c, k));
                assert(first_with_key(b, k) == first_with_key(c, k));
                assert(base_at(m, b, k) == base_at(m, c, k));
            }
        }
    }
}

/// Idempotent re-ingestion: upserting the same batch twice leaves the store
/// exactly as upserting it once — re-processing a height can refresh rows
/// but never create duplicates or change the outcome.
pub proof fn lemma_upsert_idempotent(m: Map<TxKey, TransactionV>, b: Seq<TransactionV>)
    ensures
        spec_upsert(spec_upsert(m, b), b) == spec_upsert(m, b),
{
    let m1 = spec_upsert(m, b);
    let m2 = spec_upsert(m1, b);
    assert forall|k: TxKey| #[trigger] m2.dom().contains(k) implies m1.dom().contains(k) && m2[k]
        == m1[k] by {
        lemma_upsert_characterization(m, b, k);
        lemma_upsert_characterization(m1, b, k);
        if batch_has_key(b, k) {
            assert(m1[k] == merge_row(base_at(m, b, k), last_with_key(b, k)));
            assert(m2[k] == merge_row(m1[k], last_with_key(b, k)));
            assert(merge_row(merge_row(base_at(m, b, k), last_with_key(b, k)), last_with_key(b, k))
                == merge_row(base_at(m, b, k), last_with_key(b, k)));
        }
    }
    assert forall|k: TxKey| #[trigger] m1.dom().contains(k) implies m2.dom().contains(k) by {
        lemma_upsert_characterization(m, b, k);
        lemma_upsert_characterization(m1, b, k);
    }
    assert(m2 =~= m1);
}

/// The store's contents: the rows keyed on (chain, hash), later rows under
/// the same key superseding earlier ones.
pub open spec fn map_of_rows(rows: Seq<TransactionV>) -> Map<TxKey, TransactionV>
    decreases rows.len(),
{
    if rows.len() == 0 {
        Map::empty()
    } else {
        map_of_rows(rows.drop_last()).insert(tx_key(rows.last()), rows.last())
    }
}

/// Pairwise distinct storage keys: the no-duplicates invariant the upsert
/// preserves.
pub open spec fn distinct_keys(rows: Seq<TransactionV>) -> bool {
    forall|i: int, j: int|
        0 <= i < j < rows.len() ==> tx_key(#[trigger] rows[i]) != tx_key(#[trigger] rows[j])
}

proof fn lemma_map_of_dom(rows: Seq<TransactionV>, k: TxKey)
    ensures
        map_of_rows(rows).dom().contains(k) <==> batch_has_key(rows, k),
    decreases rows.len(),
{
    if rows.len() == 0 {
    } else {
        lemma_map_of_dom(rows.drop_last(), k);
        let c = rows.drop_last();
        assert(forall|i: int| 0 <= i < c.len() ==> c[i] == rows[i]);
        if tx_key(rows.last()) == k {
            assert(tx_key(rows[rows.len() - 1]) == k);
        } else {
            if batch_has_key(rows, k) {
                let i = choose|i: int| 0 <= i < rows.len() && tx_key(#[trigger] rows[i]) == k;
                assert(i < c.len());
                assert(tx_key(c[i]) == k);
            }
            if batch_has_key(c, k) {
                let i = choose|i: int| 0 <= i < c.len() && tx_key(#[trigger] c[i]) == k;
                assert(tx_key(rows[i]) == k);
            }
        }
    }
}

proof fn lemma_map_of_index(rows: Seq<TransactionV>, i: int)
    requires
        distinct_keys(rows),
        0 <= i < rows.len(),
    ensures
        map_of_rows(rows).dom().contains(tx_key(rows[i])),
        map_of_rows(rows)[tx_key(rows[i])] == rows[i],
    decreases rows.len(),
{
    let c = rows.drop_last();
    assert(forall|p: int| 0 <= p < c.len() ==> c[p] == rows[p]);
    if i == rows.len() - 1 {
    } else {
        lemma_map_of_index(c, i);
        assert(tx_key(rows.last()) != tx_key(rows[i]));
    }
}

proof fn lemma_map_of_update(rows: Seq<TransactionV>, i: int, v: TransactionV)
    requires
        distinct_keys(rows),
        0 <= i < rows.len(),
        tx_key(v) == tx_key(rows[i]),
    ensures
        map_of_rows(rows.update(i, v)) == map_of_rows(rows).insert(tx_key(v), v),
    decreases rows.len(),
{
    let c = rows.drop_last();
    assert(forall|p: int| 0 <= p < c.len() ==> c[p] == rows[p]);
    if i == rows.len() - 1 {
        assert(rows.update(i, v).drop_last() =~= c);
        assert(rows.update(i, v).last() == v);
        assert(map_of_rows(rows.update(i, v)) == map_of_rows(c).insert(tx_key(v), v));
        assert(map_of_rows(c).insert(tx_key(rows.last()), rows.last()).insert(tx_key(v), v)
            =~= map_of_rows(c).insert(tx_key(v), v));
    } else {
        lemma_map_of_update(c, i, v);
        assert(rows.update(i, v).drop_last() =~= c.update(i, v));
        assert(rows.update(i, v).last() == rows.last());
        assert(map_of_rows(rows.update(i, v)) == map_of_rows(c.update(i, v)).insert(
            tx_key(rows.last()),
            rows.last(),
        ));
        assert(tx_key(rows.last()) != tx_key(v));
        assert(map_of_rows(c).insert(tx_key(v), v).insert(tx_key(rows.last()), rows.last())
            =~= map_of_rows(c).insert(tx_key(rows.last()), rows.last()).insert(tx_key(v), v));
    }
}

/// An in-memory transaction store with the upsert semantics the indexer
/// relies on: rows keyed on (chain, hash), no duplicates, conflict refreshes
/// the merged columns.
pub struct TransactionStore {
    pub rows: Vec<Transaction>,
}

impl View for TransactionStore {
    type V = Map<TxKey, TransactionV>;

    open spec fn view(&self) -> Map<TxKey, TransactionV> {
        map_of_rows(tx_views(self.rows@))
    }
}

impl TransactionStore {
    pub open spec fn wf(self) -> bool {
        distinct_keys(tx_views(self.rows@))
    }

    pub fn new() -> (r: TransactionStore)
        ensures
            r.wf(),
            r@ == Map::<TxKey, TransactionV>::empty(),
            r.rows@.len() == 0,
    {
        TransactionStore { rows: Vec::new() }
    }

    /// The row index holding this transaction's (chain, hash) key, if any.
    fn find_row(&self, t: &Transaction) -> (r: Option<usize>)
        ensures
            match r {
                Some(i) => i < self.rows@.len() && tx_key(tx_views(self.rows@)[i as int]) == tx_key(
                    t@,
                ),
                None => forall|i: int|
                    0 <= i < self.rows@.len() ==> tx_key(tx_views(self.rows@)[i]) != tx_key(t@),
            },
    {
        let mut i: usize = 0;
        while i < self.rows.len()
            invariant
                i <= self.rows@.len(),
                forall|j: int|
                    0 <= j < i ==> tx_key(tx_views(self.rows@)[j]) != tx_key(t@),
            decreases self.rows@.len() - i,
        {
            if self.rows[i].asset_id.chain == t.asset_id.chain && self.rows[i].hash == t.hash {
                assert(tx_key(tx_views(self.rows@)[i as int]) == tx_key(t@));
                return Some(i);
            }
            i += 1;
        }
        None
    }

    fn upsert_row(&mut self, t: &Transaction)
        requires
            old(self).wf(),
        ensures
            final(self).wf(),
            final(self)@ == spec_upsert_one(old(self)@, t@),
    {
        let ghost rows0 = tx_views(self.rows@);
        match self.find_row(t) {
            Some(i) => {
                proof {
                    lemma_map_of_index(rows0, i as int);
                    lemma_map_of_dom(rows0, tx_key(t@));
                }
                let merged = merge_transaction(&self.rows[i], t);
                let ghost mv = merged@;
                self.rows.set(i, merged);
                proof {
                    assert(tx_views(self.rows@) =~= rows0.update(i as int, mv));
                    lemma_map_of_update(rows0, i as int, mv);
                    assert(tx_key(mv) == tx_key(rows0[i as int]));
                    assert(self@ == spec_upsert_one(map_of_rows(rows0), t@));
                    let updated = rows0.update(i as int, mv);
                    assert forall|p: int, q: int| 0 <= p < q < updated.len() implies tx_key(
                        #[trigger] updated[p],
                    ) != tx_key(#[trigger] updated[q]) by {
                        assert(tx_key(updated[p]) == tx_key(rows0[p]));
                        assert(tx_key(updated[q]) == tx_key(rows0[q]));
                    }
                }
            },
            None => {
                proof {
                    lemma_map_of_dom(rows0, tx_key(t@));
                }
                self.rows.push(t.clone());
                proof {
                    assert(tx_views(self.rows@).drop_last() =~= rows0);
                    assert(tx_views(self.rows@).last() == t@);
                    assert(self@ == map_of_rows(rows0).insert(tx_key(t@), t@));
                    let pushed = tx_views(self.rows@);
                    assert forall|p: int, q: int| 0 <= p < q < pushed.len() implies tx_key(
                        #[trigger] pushed[p],
                    ) != tx_key(#[trigger] pushed[q]) by {
                        if q < pushed.len() - 1 {
                            assert(tx_key(pushed[p]) == tx_key(rows0[p]));
                            assert(tx_key(pushed[q]) == tx_key(rows0[q]));
                        } else {
                            assert(tx_key(pushed[p]) == tx_key(rows0[p]));
                            assert(tx_key(pushed[q]) == tx_key(t@));
                        }
                    }
                }
            },
        }
    }

    /// Upsert a height's deduplicated batch: after the call the store holds
    /// the batch folded in, still without duplicate (chain, hash) keys.
    pub fn add_transactions(&mut self, txs: &Vec<Transaction>)
        requires
            old(self).wf(),
        ensures
            final(self).wf(),
            final(self)@ == spec_upsert(old(self)@, tx_views(txs@)),
    {
        let ghost m0 = old(self)@;
        let ghost batch = tx_views(txs@);
        let mut i: usize = 0;
        while i < txs.len()
            invariant
                i <= txs@.len(),
                batch == tx_views(txs@),
                self.wf(),
                self@ == spec_upsert(m0, batch.take(i as int)),
            decreases txs.len() - i,
        {
            self.upsert_row(&txs[i]);
            proof {
                assert(batch.take(i + 1 as int).drop_last() =~= batch.take(i as int));
                assert(batch.take(i + 1 as int).last() == batch[i as int]);
            }
            i += 1;
        }
        proof {
            assert(batch.take(txs@.len() as int) =~= batch);
        }
    }
}

/// The merged row an upsert conflict leaves behind: refreshed columns from
/// the new transaction, identity and content columns kept from the stored
/// row.
fn merge_transaction(old_row: &Transaction, new: &Transaction) -> (r: Transaction)
    ensures
        r@ == merge_row(old_row@, new@),
{
    Transaction {
        id: old_row.id.clone(),
        hash: old_row.hash.clone(),
        asset_id: old_row.asset_id.clone(),
        from: old_row.from.clone(),
        to: old_row.to.clone(),
        contract: match &old_row.contract {
            Some(s) => Some(s.clone()),
            None => None,
        },
        transaction_type: old_row.transaction_type,
        state: old_row.state,
        block_number: new.block_number,
        sequence: new.sequence,
        fee: new.fee.clone(),
        fee_asset_id: new.fee_asset_id.clone(),
        value: old_row.value.clone(),
        memo: match &new.memo {
            Some(s) => Some(s.clone()),
            None => None,
        },
        direction: old_row.direction,
        created_at: old_row.created_at,
        updated_at: new.updated_at,
    }
}

} // verus!
