//! What a block does to the pool.

use vstd::prelude::*;

use crate::action::Effect;
use crate::laws::Step;
use crate::laws::adding::law_first_response;
use crate::laws::node::lemma_no_drain;
use crate::laws::order::{lemma_filter_in_order, lemma_in_order_len};
use crate::model::{
    drains, keyed_by, lemma_no_entry_left, lemma_without_one_more_key, total_bytes, without_keys,
    MempoolState,
};
use crate::store::Entry;
use crate::tx::sha256;

verus! {

/// Whether `e` has the digest of one of `txs` as its key.
pub open spec fn committed(e: Entry, txs: Seq<Seq<u8>>) -> bool {
    exists|j: int| 0 <= j < txs.len() && e.key == sha256(#[trigger] txs[j])
}

/// Whether each of `s` has the digest of one of `txs` as its key.
pub open spec fn all_committed(s: Seq<Entry>, txs: Seq<Seq<u8>>) -> bool {
    forall|i: int| 0 <= i < s.len() ==> committed(#[trigger] s[i], txs)
}

/// After an update the pool has the height of the block, whatever is left in it, and nothing is
/// announced yet. Exactly the entries stay whose key is not the digest of a transaction of the
/// block, in their order, and the byte count is less by the size of the others. With recheck on,
/// the transactions that stay, where there are some, are to be rechecked, in their order; else
/// what was to be rechecked is as before. The limits stay.
pub proof fn law_update_with_a_block(pool: MempoolState, height: i64, txs: Seq<Seq<u8>>, e: Entry)
    ensures
        ({
            let rest = pool.updated(height, txs);
            &&& rest.height == height
            &&& !rest.notified_txs_available
            &&& rest.config == pool.config
            &&& rest.entries == pool.entries.filter(|e: Entry| !committed(e, txs))
            &&& rest.entries.contains(e) <==> pool.entries.contains(e) && !committed(e, txs)
            &&& rest.txs_bytes - total_bytes(rest.entries) == pool.txs_bytes - total_bytes(
                pool.entries,
            )
            &&& pool.config.recheck && rest.entries.len() > 0 ==> {
                &&& rest.recheck_txs.len() == rest.entries.len()
                &&& forall|i: int|
                    0 <= i < rest.entries.len() ==> #[trigger] rest.recheck_txs[i]
                        == rest.entries[i].tx
            }
            &&& !pool.config.recheck || rest.entries.len() == 0 ==> rest.recheck_txs
                == pool.recheck_txs
        }),
{
    let kept = |e: Entry| !committed(e, txs);
    assert forall|e: Entry| keyed_by(e.key, txs) == #[trigger] committed(e, txs) by {}
    assert(kept =~= (|e: Entry| !keyed_by(e.key, txs)));
    let left = pool.entries.filter(kept);
    if left.contains(e) {
        let i = choose|i: int| 0 <= i < left.len() && left[i] == e;
        assert(kept(left[i]));
        pool.entries.lemma_filter_contains_rev(kept, e);
    }
    if pool.entries.contains(e) && !committed(e, txs) {
        let i = choose|i: int| 0 <= i < pool.entries.len() && pool.entries[i] == e;
        assert(kept(pool.entries[i]));
    }
}

/// Where some entry stays, an update asks for nothing but the recheck of each one, in their order,
/// and a flush of the connection, or, with recheck off, for the announcement.
pub proof fn law_update_tells_of_what_stays(pool: MempoolState, height: i64, txs: Seq<Seq<u8>>)
    requires
        !all_committed(pool.entries, txs),
    ensures
        ({
            let emitted = pool.update_effects(txs);
            let rest = pool.updated(height, txs);
            &&& rest.entries.len() > 0
            &&& !pool.config.recheck ==> emitted == seq![Effect::AskTxsAvailableEnabled]
            &&& pool.config.recheck ==> {
                &&& emitted.len() == rest.entries.len() + 1
                &&& forall|i: int|
                    0 <= i < rest.entries.len() ==> #[trigger] emitted[i]
                        == (Effect::CheckTxAsync {
                        tx: rest.entries[i].tx.tx,
                        set_callback: false,
                    })
                &&& emitted.last() == Effect::FlushAsync
            }
        }),
{
    lemma_all_committed(pool.entries, txs);
    lemma_no_drain(pool.entries, txs);
}

/// Where no entry stays, an update asks for nothing but the waiting: once for each transaction of
/// the block whose removal leaves the pool empty, or finds it so.
pub proof fn law_update_tells_of_an_empty_pool(pool: MempoolState, txs: Seq<Seq<u8>>, k: int)
    requires
        all_committed(pool.entries, txs),
        1 <= k <= txs.len(),
    ensures
        ({
            let emitted = pool.update_effects(txs);
            &&& emitted.len() <= txs.len()
            &&& forall|i: int|
                0 <= i < emitted.len() ==> #[trigger] emitted[i] == Effect::MakeTxsWaitChan
            &&& all_committed(pool.entries, txs.take(k)) <==> k > txs.len() - emitted.len()
        }),
{
    lemma_all_committed(pool.entries, txs);
    lemma_all_committed(pool.entries, txs.take(k));
    lemma_drains(pool.entries, txs, k);
}

/// An update with an empty block asks for nothing of an empty pool.
pub proof fn law_update_with_an_empty_block(pool: MempoolState)
    requires
        pool.entries.len() == 0,
    ensures
        pool.update_effects(Seq::empty()).len() == 0,
{
    lemma_all_committed(pool.entries, Seq::empty());
}

proof fn lemma_all_committed(s: Seq<Entry>, txs: Seq<Seq<u8>>)
    ensures
        all_committed(s, txs) <==> without_keys(s, txs).len() == 0,
{
    lemma_no_entry_left(s, txs);
    assert forall|i: int| 0 <= i < s.len() implies committed(#[trigger] s[i], txs) == keyed_by(
        s[i].key,
        txs,
    ) by {}
    if without_keys(s, txs).len() == 0 {
        assert forall|i: int| 0 <= i < s.len() implies committed(#[trigger] s[i], txs) by {
            assert(keyed_by(s[i].key, txs));
        }
    }
    if all_committed(s, txs) {
        assert forall|i: int| 0 <= i < s.len() implies keyed_by((#[trigger] s[i]).key, txs) by {
            assert(committed(s[i], txs));
        }
    }
}

proof fn lemma_drains(s: Seq<Entry>, txs: Seq<Seq<u8>>, k: int)
    requires
        1 <= k <= txs.len(),
    ensures
        drains(s, txs) <= txs.len(),
        without_keys(s, txs.take(k)).len() == 0 <==> k > txs.len() - drains(s, txs),
    decreases txs.len(),
{
    let some = txs.drop_last();
    if some.len() > 0 {
        lemma_drains(s, some, 1);
    } else {
        assert(drains(s, some) == 0);
    }
    if k < txs.len() {
        lemma_drains(s, some, k);
        assert(some.take(k) == txs.take(k));
    } else {
        assert(txs.take(k) == txs);
    }
    if without_keys(s, txs).len() > 0 {
        lemma_no_drain(s, txs);
        assert(some.push(txs.last()) == txs);
        lemma_without_one_more_key(s, some, txs.last());
        lemma_filter_in_order(without_keys(s, some), |e: Entry| e.key != sha256(txs.last()));
        lemma_in_order_len(without_keys(s, txs), without_keys(s, some));
        lemma_no_drain(s, some);
    }
}

/// An update is refused exactly where some transaction would stay and be rechecked while others
/// are left to recheck; none stays exactly where the block has all of them.
pub proof fn law_recheck_under_way(pool: MempoolState, txs: Seq<Seq<u8>>)
    ensures
        pool.recheck_collides(txs) <==> {
            &&& pool.config.recheck
            &&& pool.recheck_txs.len() > 0
            &&& !all_committed(pool.entries, txs)
        },
        pool.purged(txs).size() == 0 <==> all_committed(pool.entries, txs),
{
    lemma_all_committed(pool.entries, txs);
}

/// Settling puts the transactions of a pool, where there are some and recheck is on, down for
/// recheck, and hands each to the application, in their order; with recheck off it announces them.
/// An empty pool is left alone. Nothing else of the pool changes.
pub proof fn law_settling(pool: MempoolState)
    ensures
        ({
            let rest = pool.settled();
            let emitted = pool.settle_effects();
            &&& rest.config == pool.config
            &&& rest.height == pool.height
            &&& rest.entries == pool.entries
            &&& rest.txs_bytes == pool.txs_bytes
            &&& rest.notified_txs_available == pool.notified_txs_available
            &&& if pool.config.recheck && pool.entries.len() > 0 {
                &&& rest.recheck_txs.len() == pool.entries.len()
                &&& emitted.len() == pool.entries.len() + 1
                &&& forall|i: int|
                    0 <= i < pool.entries.len() ==> {
                        &&& #[trigger] rest.recheck_txs[i] == pool.entries[i].tx
                        &&& emitted[i] == (Effect::CheckTxAsync {
                            tx: pool.entries[i].tx.tx,
                            set_callback: false,
                        })
                    }
                &&& emitted.last() == Effect::FlushAsync
            } else {
                rest.recheck_txs == pool.recheck_txs
            }
            &&& pool.entries.len() == 0 ==> emitted.len() == 0
            &&& !pool.config.recheck && pool.entries.len() > 0 ==> emitted == seq![
                Effect::AskTxsAvailableEnabled,
            ]
        }),
{
}

/// Nothing but an update changes the height of a pool, and an update always does: the height is
/// that of the last block.
pub proof fn law_height(pool: MempoolState, height: i64, txs: Seq<Seq<u8>>, steps: Seq<Step>)
    requires
        forall|i: int| 0 <= i < steps.len() ==> !(#[trigger] steps[i] is Update),
    ensures
        pool.run(steps).height == pool.height,
        pool.updated(height, txs).run(steps).height == height,
    decreases steps.len(),
{
    if steps.len() > 0 {
        assert(!(steps[steps.len() - 1] is Update));
        law_height(pool, height, txs, steps.drop_last());
    }
}

/// A transaction that a response takes in has the height of the last update.
pub proof fn law_taken_in_at_the_height_of_the_last_update(
    pool: MempoolState,
    height: i64,
    txs: Seq<Seq<u8>>,
    steps: Seq<Step>,
    tx: Seq<u8>,
    gas_wanted: i64,
    peer_id: u16,
)
    requires
        forall|i: int| 0 <= i < steps.len() ==> !(#[trigger] steps[i] is Update),
        ({
            let now = pool.updated(height, txs).run(steps);
            &&& now.entries.len() < now.config.size
            &&& now.txs_bytes + tx.len() <= now.config.max_txs_bytes
            &&& forall|i: int|
                0 <= i < now.entries.len() ==> (#[trigger] now.entries[i]).key != sha256(tx)
        }),
    ensures
        ({
            let now = pool.updated(height, txs).run(steps);
            let next = now.first_checked(0, false, tx, gas_wanted, peer_id);
            next.entries.last().tx.height == height && next.entries.last().tx.tx == tx
        }),
{
    law_height(pool, height, txs, steps);
    law_first_response(
        pool.updated(height, txs).run(steps),
        0,
        false,
        tx,
        gas_wanted,
        peer_id,
    );
}

} // verus!
