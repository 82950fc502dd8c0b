//! How transactions leave the pool.

use vstd::prelude::*;

use crate::action::Effect;
use crate::laws::Step;
use crate::laws::views::law_key_of_an_entry;
use crate::model::{lemma_total_without_key, total_bytes, MempoolState};
use crate::store::{has_key, key_once, lemma_without_absent_key, without_key, Entry};
use crate::tx::sha256;

verus! {

/// Leaving out a key that one entry alone has takes that entry out of its place.
proof fn lemma_without_the_only_one(s: Seq<Entry>, key: Seq<u8>, i: int)
    requires
        0 <= i < s.len(),
        s[i].key == key,
        forall|j: int| 0 <= j < s.len() && j != i ==> (#[trigger] s[j]).key != key,
    ensures
        without_key(s, key) == s.remove(i),
    decreases s.len(),
{
    reveal(Seq::filter);
    let t = s.drop_last();
    assert forall|j: int| 0 <= j < t.len() && j != i implies (#[trigger] t[j]).key != key by {
        assert(t[j] == s[j]);
    }
    if i == t.len() {
        assert(!has_key(t, key));
        lemma_without_absent_key(t, key);
        assert(s.remove(i) == t);
    } else {
        assert(s[s.len() - 1].key != key);
        lemma_without_the_only_one(t, key, i);
        assert(s.remove(i) == t.remove(i).push(s.last()));
    }
}

/// Exactly the entries with another key stay, in their order, and the byte count is less by the
/// size of what leaves. Nothing else of the pool changes. A removal that leaves no entry, and no
/// other, starts the waiting.
pub proof fn law_removal(pool: MempoolState, key: Seq<u8>, e: Entry)
    ensures
        ({
            let rest = pool.removed_under(key);
            &&& rest.entries == pool.entries.filter(|e: Entry| e.key != key)
            &&& rest.entries.contains(e) <==> pool.entries.contains(e) && e.key != key
            &&& rest.txs_bytes - total_bytes(rest.entries) == pool.txs_bytes - total_bytes(
                pool.entries,
            )
            &&& rest.config == pool.config
            &&& rest.height == pool.height
            &&& rest.notified_txs_available == pool.notified_txs_available
            &&& rest.recheck_txs == pool.recheck_txs
            &&& rest.entries.len() == 0 ==> pool.remove_under_effects(key) == seq![
                Effect::MakeTxsWaitChan,
            ]
            &&& rest.entries.len() > 0 ==> pool.remove_under_effects(key).len() == 0
        }),
{
    let kept = |e: Entry| e.key != key;
    if pool.removed_under(key).entries.contains(e) {
        let i = choose|i: int|
            0 <= i < pool.entries.filter(kept).len() && pool.entries.filter(kept)[i] == e;
        assert(kept(pool.entries.filter(kept)[i]));
        pool.entries.lemma_filter_contains_rev(kept, e);
    }
    if pool.entries.contains(e) && e.key != key {
        let i = choose|i: int| 0 <= i < pool.entries.len() && pool.entries[i] == e;
        assert(kept(pool.entries[i]));
    }
}

/// A transaction is removed by the key that is its digest.
pub proof fn law_removal_by_the_digest(pool: MempoolState, tx: Seq<u8>)
    ensures
        pool.removed(tx) == pool.removed_under(sha256(tx)),
        pool.remove_effects(tx) == pool.remove_under_effects(sha256(tx)),
{
}

/// Where one entry alone has the key, a removal takes it out of its place, and its length off the
/// byte count. Where none has it, the pool stays as it is.
pub proof fn law_removal_of_one(pool: MempoolState, key: Seq<u8>, i: int)
    ensures
        0 <= i < pool.entries.len() && pool.entries[i].key == key && (forall|j: int|
            0 <= j < pool.entries.len() && j != i ==> (#[trigger] pool.entries[j]).key != key) ==> {
            &&& pool.removed_under(key).entries == pool.entries.remove(i)
            &&& pool.removed_under(key).txs_bytes == pool.txs_bytes - pool.entries[i].tx.tx.len()
        },
        (forall|j: int|
            0 <= j < pool.entries.len() ==> (#[trigger] pool.entries[j]).key != key)
            ==> pool.removed_under(key) == pool,
{
    let s = pool.entries;
    if 0 <= i < s.len() && s[i].key == key && (forall|j: int|
        0 <= j < s.len() && j != i ==> (#[trigger] s[j]).key != key) {
        lemma_without_the_only_one(s, key, i);
        law_key_of_an_entry(s, key, i);
        assert(key_once(s, key));
        assert(has_key(s, key));
        lemma_total_without_key(s, key);
    }
    if forall|j: int| 0 <= j < s.len() ==> (#[trigger] s[j]).key != key {
        assert(!has_key(s, key));
        lemma_without_absent_key(s, key);
    }
}

/// Removing by key takes out the one entry that has the key, where that is the digest of its
/// transaction, and its length off the byte count; nothing is done, and nothing asked for, where
/// no entry has it.
pub proof fn law_removal_by_key(pool: MempoolState, key: Seq<u8>, i: int)
    ensures
        0 <= i < pool.entries.len() && pool.entries[i].key == key && sha256(pool.entries[i].tx.tx)
            == key && (forall|j: int|
            0 <= j < pool.entries.len() && j != i ==> (#[trigger] pool.entries[j]).key != key) ==> {
            &&& pool.tx_at(key) == pool.entries[i].tx.tx
            &&& pool.after(Step::RemoveByKey { key }).entries == pool.entries.remove(i)
            &&& pool.after(Step::RemoveByKey { key }).txs_bytes == pool.txs_bytes
                - pool.entries[i].tx.tx.len()
        },
        (forall|j: int|
            0 <= j < pool.entries.len() ==> (#[trigger] pool.entries[j]).key != key) ==> {
            &&& pool.after(Step::RemoveByKey { key }) == pool
            &&& pool.emits(Step::RemoveByKey { key }).len() == 0
        },
{
    law_removal_of_one(pool, key, i);
    law_key_of_an_entry(pool.entries, key, i);
    if 0 <= i < pool.entries.len() && pool.entries[i].key == key {
        assert(has_key(pool.entries, key));
    }
}

/// A transaction that is rechecked leaves the pool exactly where its code is not zero or the
/// node's check fails. Then, where the pool is not empty, it is announced; where the removal left
/// it empty, the waiting starts.
pub proof fn law_post_check(pool: MempoolState, code: u32, tx: Seq<u8>, has_post_check_err: bool)
    ensures
        ({
            let rest = pool.post_checked(code, tx, has_post_check_err);
            let emitted = pool.post_check_effects(code, tx, has_post_check_err);
            let stays = code == 0 && !has_post_check_err;
            &&& stays ==> rest == pool
            &&& !stays ==> rest == pool.removed_under(sha256(tx))
            &&& rest.entries.len() > 0 ==> emitted == seq![Effect::AskTxsAvailableEnabled]
            &&& rest.entries.len() == 0 && !stays ==> emitted == seq![Effect::MakeTxsWaitChan]
            &&& rest.entries.len() == 0 && stays ==> emitted.len() == 0
        }),
{
}

/// A flush takes all transactions, and nothing else.
pub proof fn law_flush(pool: MempoolState)
    ensures
        pool.flushed().entries.len() == 0,
        pool.flushed().txs_bytes == 0,
        pool.flushed().config == pool.config,
        pool.flushed().height == pool.height,
        pool.flushed().notified_txs_available == pool.notified_txs_available,
        pool.flushed().recheck_txs == pool.recheck_txs,
{
}

} // verus!
