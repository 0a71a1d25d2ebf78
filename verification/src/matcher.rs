use vstd::prelude::*;

use crate::primitives::{Subscription, SubscriptionV, Transaction, TransactionV, tx_views};

verus! {

/// One notification to dispatch: a matched device and the transaction that
/// concerns it. One transaction can match several subscriptions, so the same
/// transaction may appear under several devices.
pub struct NotificationTarget {
    pub device_id: i32,
    pub transaction: Transaction,
}

pub ghost struct NotificationTargetV {
    pub device_id: i32,
    pub transaction: TransactionV,
}

impl View for NotificationTarget {
    type V = NotificationTargetV;

    open spec fn view(&self) -> NotificationTargetV {
        NotificationTargetV { device_id: self.device_id, transaction: self.transaction@ }
    }
}

pub open spec fn sub_views(s: Seq<Subscription>) -> Seq<SubscriptionV> {
    s.map_values(|x: Subscription| x@)
}

pub open spec fn target_views(s: Seq<NotificationTarget>) -> Seq<NotificationTargetV> {
    s.map_values(|x: NotificationTarget| x@)
}

/// The participant addresses of a batch, in batch order: each transaction's
/// sender then receiver.
pub open spec fn spec_participant_addresses(txs: Seq<TransactionV>) -> Seq<Seq<char>>
    decreases txs.len(),
{
    if txs.len() == 0 {
        Seq::empty()
    } else {
        spec_participant_addresses(txs.drop_last()) + seq![txs.last().from, txs.last().to]
    }
}

/// Collect the addresses a height's transactions touch: the keys the active
/// subscriptions are looked up under.
pub fn participant_addresses(txs: &Vec<Transaction>) -> (r: Vec<String>)
    ensures
        r@.map_values(|s: String| s@) == spec_participant_addresses(tx_views(txs@)),
{
    let ghost gtxs = tx_views(txs@);
    let mut r: Vec<String> = Vec::new();
    let mut i: usize = 0;
    while i < txs.len()
        invariant
            i <= txs.len(),
            gtxs == tx_views(txs@),
            r@.map_values(|s: String| s@) == spec_participant_addresses(gtxs.take(i as int)),
        decreases txs.len() - i,
    {
        let ghost pre = r@.map_values(|s: String| s@);
        r.push(txs[i].from.clone());
        r.push(txs[i].to.clone());
        proof {
            assert(r@.map_values(|s: String| s@) =~= pre + seq![
                gtxs[i as int].from,
                gtxs[i as int].to,
            ]);
            assert(gtxs.take(i + 1 as int).drop_last() =~= gtxs.take(i as int));
            assert(gtxs.take(i + 1 as int).last() == gtxs[i as int]);
        }
        i += 1;
    }
    proof {
        assert(gtxs.take(txs@.len() as int) =~= gtxs);
    }
    r
}

/// A subscription matches a transaction whose sender or receiver address is
/// the subscribed address.
pub open spec fn sub_matches_tx(sub: SubscriptionV, t: TransactionV) -> bool {
    t.from == sub.address || t.to == sub.address
}

/// The matches of one subscription against a batch of transactions, in batch
/// order.
pub open spec fn spec_matches_for_sub(sub: SubscriptionV, txs: Seq<TransactionV>) -> Seq<
    NotificationTargetV,
>
    decreases txs.len(),
{
    if txs.len() == 0 {
        Seq::empty()
    } else {
        spec_matches_for_sub(sub, txs.drop_last()) + if sub_matches_tx(sub, txs.last()) {
            seq![NotificationTargetV { device_id: sub.device_id, transaction: txs.last() }]
        } else {
            Seq::empty()
        }
    }
}

/// All (device, transaction) pairs owed a notification: for each subscription
/// in order, every transaction whose sender or receiver is the subscribed
/// address.
pub open spec fn spec_matches(subs: Seq<SubscriptionV>, txs: Seq<TransactionV>) -> Seq<
    NotificationTargetV,
>
    decreases subs.len(),
{
    if subs.len() == 0 {
        Seq::empty()
    } else {
        spec_matches(subs.drop_last(), txs) + spec_matches_for_sub(subs.last(), txs)
    }
}

/// Match a height's decoded transactions against the active subscriptions:
/// one pair per (subscription, transaction) whose sender or receiver is the
/// subscribed address.
pub fn match_subscriptions(subs: &Vec<Subscription>, txs: &Vec<Transaction>) -> (r: Vec<
    NotificationTarget,
>)
    ensures
        target_views(r@) == spec_matches(sub_views(subs@), tx_views(txs@)),
{
    let ghost gsubs = sub_views(subs@);
    let ghost gtxs = tx_views(txs@);
    let mut r: Vec<NotificationTarget> = Vec::new();
    let mut i: usize = 0;
    while i < subs.len()
        invariant
            i <= subs.len(),
            gsubs == sub_views(subs@),
            gtxs == tx_views(txs@),
            target_views(r@) == spec_matches(gsubs.take(i as int), gtxs),
        decreases subs.len() - i,
    {
        let sub = &subs[i];
        let mut j: usize = 0;
        while j < txs.len()
            invariant
                i < subs.len(),
                j <= txs.len(),
                gsubs == sub_views(subs@),
                gtxs == tx_views(txs@),
                target_views(r@) == spec_matches(gsubs.take(i as int), gtxs)
                    + spec_matches_for_sub(gsubs[i as int], gtxs.take(j as int)),
                sub == &subs@[i as int],
            decreases txs.len() - j,
        {
            let t = &txs[j];
            let ghost pre = target_views(r@);
            if t.from == sub.address || t.to == sub.address {
                r.push(NotificationTarget { device_id: sub.device_id, transaction: t.clone() });
                proof {
                    assert(target_views(r@) =~= pre.push(
                        NotificationTargetV {
                            device_id: gsubs[i as int].device_id,
                            transaction: gtxs[j as int],
                        },
                    ));
                }
            }
            proof {
                assert(gtxs.take(j + 1 as int).drop_last() =~= gtxs.take(j as int));
                assert(gtxs.take(j + 1 as int).last() == gtxs[j as int]);
                assert(target_views(r@) =~= spec_matches(gsubs.take(i as int), gtxs)
                    + spec_matches_for_sub(gsubs[i as int], gtxs.take(j + 1 as int)));
            }
            j += 1;
        }
        proof {
            assert(gtxs.take(txs@.len() as int) =~= gtxs);
            assert(gsubs.take(i + 1 as int).drop_last() =~= gsubs.take(i as int));
            assert(gsubs.take(i + 1 as int).last() == gsubs[i as int]);
        }
        i += 1;
    }
    proof {
        assert(gsubs.take(subs@.len() as int) =~= gsubs);
    }
    r
}

/// Matching correctness: a pair is owed a notification exactly when some
/// subscription's address is the sender or receiver of some transaction in
/// the batch, and the pair couples that subscription's device with that
/// transaction.
pub proof fn lemma_match_membership(
    subs: Seq<SubscriptionV>,
    txs: Seq<TransactionV>,
    m: NotificationTargetV,
)
    ensures
        spec_matches(subs, txs).contains(m) <==> exists|i: int, j: int|
            0 <= i < subs.len() && 0 <= j < txs.len() && sub_matches_tx(subs[i], txs[j]) && m
                == (NotificationTargetV { device_id: subs[i].device_id, transaction: txs[j] }),
    decreases subs.len(),
{
    if subs.len() == 0 {
    } else {
        lemma_match_membership(subs.drop_last(), txs, m);
        lemma_match_for_sub_membership(subs.last(), txs, m);
        if spec_matches(subs, txs).contains(m) {
            let k = choose|k: int|
                0 <= k < spec_matches(subs, txs).len() && spec_matches(subs, txs)[k] == m;
            let front = spec_matches(subs.drop_last(), txs);
            if k < front.len() {
                assert(front.contains(m));
                let (i, j) = choose|i: int, j: int|
                    0 <= i < subs.drop_last().len() && 0 <= j < txs.len() && sub_matches_tx(
                        subs.drop_last()[i],
                        txs[j],
                    ) && m == (NotificationTargetV {
                        device_id: subs.drop_last()[i].device_id,
                        transaction: txs[j],
                    });
                assert(subs.drop_last()[i] == subs[i]);
            } else {
                assert(spec_matches_for_sub(subs.last(), txs).contains(m));
                assert(subs.last() == subs[subs.len() - 1]);
            }
        }
        if exists|i: int, j: int|
            0 <= i < subs.len() && 0 <= j < txs.len() && sub_matches_tx(subs[i], txs[j]) && m
                == (NotificationTargetV { device_id: subs[i].device_id, transaction: txs[j] }) {
            let (i, j) = choose|i: int, j: int|
                0 <= i < subs.len() && 0 <= j < txs.len() && sub_matches_tx(subs[i], txs[j]) && m
                    == (NotificationTargetV {
                    device_id: subs[i].device_id,
                    transaction: txs[j],
                });
            if i < subs.len() - 1 {
                assert(subs.drop_last()[i] == subs[i]);
                assert(spec_matches(subs.drop_last(), txs).contains(m));
                let front = spec_matches(subs.drop_last(), txs);
                let k = choose|k: int| 0 <= k < front.len() && front[k] == m;
                assert(spec_matches(subs, txs)[k] == m);
            } else {
                assert(spec_matches_for_sub(subs.last(), txs).contains(m));
                let tail = spec_matches_for_sub(subs.last(), txs);
                let k = choose|k: int| 0 <= k < tail.len() && tail[k] == m;
                let front = spec_matches(subs.drop_last(), txs);
                assert(spec_matches(subs, txs)[front.len() + k] == m);
            }
        }
    }
}

/// Membership in the matches of one subscription: exactly the transactions
/// whose sender or receiver is the subscribed address, paired with the
/// subscription's device.
proof fn lemma_match_for_sub_membership(
    sub: SubscriptionV,
    txs: Seq<TransactionV>,
    m: NotificationTargetV,
)
    ensures
        spec_matches_for_sub(sub, txs).contains(m) <==> exists|j: int|
            0 <= j < txs.len() && sub_matches_tx(sub, txs[j]) && m == (NotificationTargetV {
                device_id: sub.device_id,
                transaction: txs[j],
            }),
    decreases txs.len(),
{
    if txs.len() == 0 {
    } else {
        lemma_match_for_sub_membership(sub, txs.drop_last(), m);
        let front = spec_matches_for_sub(sub, txs.drop_last());
        if spec_matches_for_sub(sub, txs).contains(m) {
            let k = choose|k: int|
                0 <= k < spec_matches_for_sub(sub, txs).len() && spec_matches_for_sub(sub, txs)[k]
                    == m;
            if k < front.len() {
                assert(front.contains(m));
                let j = choose|j: int|
                    0 <= j < txs.drop_last().len() && sub_matches_tx(sub, txs.drop_last()[j]) && m
                        == (NotificationTargetV {
                        device_id: sub.device_id,
                        transaction: txs.drop_last()[j],
                    });
                assert(txs.drop_last()[j] == txs[j]);
            } else {
                assert(sub_matches_tx(sub, txs.last()) && m == (NotificationTargetV {
                    device_id: sub.device_id,
                    transaction: txs.last(),
                }));
                assert(txs.last() == txs[txs.len() - 1]);
            }
        }
        if exists|j: int|
            0 <= j < txs.len() && sub_matches_tx(sub, txs[j]) && m == (NotificationTargetV {
                device_id: sub.device_id,
                transaction: txs[j],
            }) {
            let j = choose|j: int|
                0 <= j < txs.len() && sub_matches_tx(sub, txs[j]) && m == (NotificationTargetV {
                    device_id: sub.device_id,
                    transaction: txs[j],
                });
            if j < txs.len() - 1 {
                assert(txs.drop_last()[j] == txs[j]);
                assert(front.contains(m));
                let k = choose|k: int| 0 <= k < front.len() && front[k] == m;
                assert(spec_matches_for_sub(sub, txs)[k] == m);
            } else {
                assert(spec_matches_for_sub(sub, txs)[front.len() as int] == m);
            }
        }
    }
}

/// Whether some transaction in `s` carries the identifier `id`.
pub open spec fn has_id(s: Seq<TransactionV>, id: Seq<char>) -> bool {
    exists|j: int| 0 <= j < s.len() && s[j].id == id
}

/// The batch destined for persistence: one canonical copy per identifier,
/// the first occurrence of each, in order of first occurrence.
pub open spec fn spec_dedup_by_id(s: Seq<TransactionV>) -> Seq<TransactionV>
    decreases s.len(),
{
    if s.len() == 0 {
        Seq::empty()
    } else {
        let front = spec_dedup_by_id(s.drop_last());
        if has_id(s.drop_last(), s.last().id) {
            front
        } else {
            front.push(s.last())
        }
    }
}

/// Deduplication keeps exactly the identifiers of its input.
proof fn lemma_dedup_preserves_ids(s: Seq<TransactionV>, id: Seq<char>)
    ensures
        has_id(spec_dedup_by_id(s), id) <==> has_id(s, id),
    decreases s.len(),
{
    if s.len() == 0 {
    } else {
        lemma_dedup_preserves_ids(s.drop_last(), id);
        let front = spec_dedup_by_id(s.drop_last());
        if has_id(s.drop_last(), s.last().id) {
            if has_id(s, id) {
                let j = choose|j: int| 0 <= j < s.len() && s[j].id == id;
                if j == s.len() - 1 {
                    assert(has_id(s.drop_last(), id) || id == s.last().id);
                } else {
                    assert(s.drop_last()[j] == s[j]);
                }
            }
            if has_id(s.drop_last(), id) {
                let j = choose|j: int| 0 <= j < s.drop_last().len() && s.drop_last()[j].id == id;
                assert(s[j].id == id);
            }
        } else {
            if has_id(s, id) {
                let j = choose|j: int| 0 <= j < s.len() && s[j].id == id;
                if j == s.len() - 1 {
                    assert(spec_dedup_by_id(s).last().id == id);
                    assert(has_id(spec_dedup_by_id(s), id));
                } else {
                    assert(s.drop_last()[j] == s[j]);
                    let k = choose|k: int| 0 <= k < front.len() && front[k].id == id;
                    assert(spec_dedup_by_id(s)[k].id == id);
                }
            }
            if has_id(spec_dedup_by_id(s), id) {
                let k = choose|k: int|
                    0 <= k < spec_dedup_by_id(s).len() && spec_dedup_by_id(s)[k].id == id;
                if k == spec_dedup_by_id(s).len() - 1 {
                    assert(s.last().id == id);
                } else {
                    assert(front[k].id == id);
                    let j = choose|j: int|
                        0 <= j < s.drop_last().len() && s.drop_last()[j].id == id;
                    assert(s[j].id == id);
                }
            }
        }
    }
}

/// Whether `out` already holds a transaction with this identifier.
fn contains_id(out: &Vec<Transaction>, id: &String) -> (r: bool)
    ensures
        r == has_id(tx_views(out@), id@),
{
    let mut k: usize = 0;
    while k < out.len()
        invariant
            k <= out.len(),
            forall|j: int| 0 <= j < k ==> tx_views(out@)[j].id != id@,
        decreases out.len() - k,
    {
        if out[k].id == *id {
            assert(tx_views(out@)[k as int].id == id@);
            return true;
        }
        k += 1;
    }
    false
}

/// Deduplicate a height's matched transactions by identifier before the
/// storage upsert, keeping one canonical copy each; notification fan-out is
/// independent of this.
pub fn dedup_by_id(txs: &Vec<Transaction>) -> (r: Vec<Transaction>)
    ensures
        tx_views(r@) == spec_dedup_by_id(tx_views(txs@)),
{
    let ghost gtxs = tx_views(txs@);
    let mut r: Vec<Transaction> = Vec::new();
    let mut i: usize = 0;
    while i < txs.len()
        invariant
            i <= txs.len(),
            gtxs == tx_views(txs@),
            tx_views(r@) == spec_dedup_by_id(gtxs.take(i as int)),
        decreases txs.len() - i,
    {
        proof {
            lemma_dedup_preserves_ids(gtxs.take(i as int), gtxs[i as int].id);
        }
        let ghost pre = tx_views(r@);
        if !contains_id(&r, &txs[i].id) {
            r.push(txs[i].clone());
            proof {
                assert(tx_views(r@) =~= pre.push(gtxs[i as int]));
            }
        }
        proof {
            assert(gtxs.take(i + 1 as int).drop_last() =~= gtxs.take(i as int));
            assert(gtxs.take(i + 1 as int).last() == gtxs[i as int]);
        }
        i += 1;
    }
    proof {
        assert(gtxs.take(txs@.len() as int) =~= gtxs);
    }
    r
}

/// The deduplicated batch holds no two transactions with the same
/// identifier: persistence sees one canonical copy each.
pub proof fn lemma_dedup_unique_ids(s: Seq<TransactionV>)
    ensures
        forall|i: int, j: int|
            0 <= i < j < spec_dedup_by_id(s).len() ==> spec_dedup_by_id(s)[i].id
                != spec_dedup_by_id(s)[j].id,
    decreases s.len(),
{
    if s.len() == 0 {
    } else {
        lemma_dedup_unique_ids(s.drop_last());
        let front = spec_dedup_by_id(s.drop_last());
        let out = spec_dedup_by_id(s);
        if has_id(s.drop_last(), s.last().id) {
        } else {
            lemma_dedup_preserves_ids(s.drop_last(), s.last().id);
            assert(!has_id(front, s.last().id));
            assert forall|i: int, j: int| 0 <= i < j < out.len() implies out[i].id
                != out[j].id by {
                if j < out.len() - 1 {
                    assert(out[i] == front[i] && out[j] == front[j]);
                } else {
                    assert(out[i] == front[i]);
                    assert(out[j] == s.last());
                    if front[i].id == s.last().id {
                        assert(has_id(front, s.last().id));
                    }
                }
            }
        }
    }
}

/// Everything one height owes after decode: the notification fan-out and the
/// deduplicated batch destined for the storage upsert. The two are
/// independent: a transaction matched by several devices is pushed to each
/// of them but persisted once.
pub fn process_height(txs: &Vec<Transaction>, subs: &Vec<Subscription>) -> (r: (
    Vec<NotificationTarget>,
    Vec<Transaction>,
))
    ensures
        target_views(r.0@) == spec_matches(sub_views(subs@), tx_views(txs@)),
        tx_views(r.1@) == spec_dedup_by_id(
            target_views(r.0@).map_values(|m: NotificationTargetV| m.transaction),
        ),
{
    let matches = match_subscriptions(subs, txs);
    let to_persist = dedup_by_id(&transactions_of_matches(&matches));
    (matches, to_persist)
}

/// The transactions carried by a batch of matches, in match order; the input
/// to persistence deduplication.
pub fn transactions_of_matches(matches: &Vec<NotificationTarget>) -> (r: Vec<Transaction>)
    ensures
        tx_views(r@) == target_views(matches@).map_values(
            |m: NotificationTargetV| m.transaction,
        ),
{
    let mut r: Vec<Transaction> = Vec::new();
    let mut i: usize = 0;
    while i < matches.len()
        invariant
            i <= matches.len(),
            tx_views(r@) =~= target_views(matches@).map_values(
                |m: NotificationTargetV| m.transaction,
            ).take(i as int),
        decreases matches.len() - i,
    {
        let ghost pre = tx_views(r@);
        let ghost all = target_views(matches@).map_values(|m: NotificationTargetV| m.transaction);
        r.push(matches[i].transaction.clone());
        proof {
            assert(tx_views(r@) =~= pre.push(matches@[i as int]@.transaction));
            assert(all.take(i + 1 as int) =~= all.take(i as int).push(all[i as int]));
        }
        i += 1;
    }
    proof {
        assert(target_views(matches@).map_values(|m: NotificationTargetV| m.transaction).take(
            matches@.len() as int,
        ) =~= target_views(matches@).map_values(|m: NotificationTargetV| m.transaction));
    }
    r
}

} // verus!
