//! Each transaction stands under its own key, once.

use vstd::prelude::*;

use crate::action::Effect;
use crate::laws::Step;
use crate::mempool::MempoolConfig;
use crate::model::{keyed_by, lemma_total_of_push, MempoolState};
use crate::store::{
    distinct_keys, has_key, lemma_has_key_of_push, lemma_without_absent_key, lemma_without_key,
    without_key, Entry,
};
use crate::tx::{sha256, TxRecord};

verus! {

/// Whether each entry has the key of its transaction, and no two entries share a key.
pub open spec fn well_keyed(s: Seq<Entry>) -> bool {
    &&& distinct_keys(s)
    &&& forall|i: int| 0 <= i < s.len() ==> (#[trigger] s[i]).key == sha256(s[i].tx.tx)
}

proof fn lemma_filter_keeps_keys(s: Seq<Entry>, kept: spec_fn(Entry) -> bool)
    requires
        well_keyed(s),
    ensures
        well_keyed(s.filter(kept)),
        forall|key: Seq<u8>| has_key(s.filter(kept), key) ==> has_key(s, key),
        s.filter(kept).len() <= s.len(),
    decreases s.len(),
{
    reveal(Seq::filter);
    if s.len() > 0 {
        let t = s.drop_last();
        let e = s.last();
        assert(well_keyed(t)) by {
            assert forall|i: int| 0 <= i < t.len() implies (#[trigger] t[i]).key == sha256(
                t[i].tx.tx,
            ) by {
                assert(t[i] == s[i]);
            }
        }
        lemma_filter_keeps_keys(t, kept);
        let f = t.filter(kept);
        assert forall|key: Seq<u8>| has_key(f, key) implies has_key(s, key) && key != e.key by {
            assert(has_key(t, key));
            let i = choose|i: int| 0 <= i < t.len() && (#[trigger] t[i]).key == key;
            assert(s[i].key == key);
            assert(s[s.len() - 1].key == e.key);
        }
        if kept(e) {
            let g = f.push(e);
            assert(s.filter(kept) == g);
            assert forall|i: int, j: int| 0 <= i < j < g.len() implies (#[trigger] g[i]).key != (
            #[trigger] g[j]).key by {
                if j == f.len() {
                    assert(has_key(f, f[i].key));
                } else {
                    assert(f[i].key != f[j].key);
                }
            }
            assert forall|i: int| 0 <= i < g.len() implies (#[trigger] g[i]).key == sha256(
                g[i].tx.tx,
            ) by {
                if i == f.len() {
                    assert(s[s.len() - 1].key == sha256(s[s.len() - 1].tx.tx));
                } else {
                    assert(f[i].key == sha256(f[i].tx.tx));
                }
            }
            assert forall|key: Seq<u8>| has_key(g, key) implies has_key(s, key) by {
                let i = choose|i: int| 0 <= i < g.len() && (#[trigger] g[i]).key == key;
                if i < f.len() {
                    assert(f[i].key == key);
                    assert(has_key(f, key));
                } else {
                    assert(s[s.len() - 1].key == key);
                }
            }
        }
    }
}

/// A step keeps each transaction under its own key, and no key twice.
pub proof fn law_step_keeps_keys(pool: MempoolState, step: Step)
    requires
        well_keyed(pool.entries),
    ensures
        well_keyed(pool.after(step).entries),
{
    match step {
        Step::Add { record } => {
            lemma_add_keeps_keys(pool, record);
        },
        Step::FirstResponse { code, has_post_check_err, tx, gas_wanted, peer_id } => {
            lemma_add_keeps_keys(pool, pool.received(tx, gas_wanted, peer_id));
        },
        Step::Remove { tx } => {
            lemma_filter_keeps_keys(pool.entries, |e: Entry| e.key != sha256(tx));
        },
        Step::RemoveByKey { key } => {
            lemma_filter_keeps_keys(pool.entries, |e: Entry| e.key != sha256(pool.tx_at(key)));
        },
        Step::PostCheck { code, tx, has_post_check_err } => {
            lemma_filter_keeps_keys(pool.entries, |e: Entry| e.key != sha256(tx));
        },
        Step::Update { height, txs } => {
            lemma_filter_keeps_keys(pool.entries, |e: Entry| !keyed_by(e.key, txs));
        },
        _ => {},
    }
}

proof fn lemma_add_keeps_keys(pool: MempoolState, tx: TxRecord)
    requires
        well_keyed(pool.entries),
    ensures
        well_keyed(pool.added(tx).entries),
{
    let s = pool.entries;
    let t = pool.added(tx).entries;
    if !pool.has_tx(tx.tx) {
        assert forall|i: int, j: int| 0 <= i < j < t.len() implies (#[trigger] t[i]).key != (
        #[trigger] t[j]).key by {
            assert(t[i] == s[i]);
            if j < s.len() {
                assert(t[j] == s[j]);
            }
        }
    }
}

/// In every state of a pool each transaction stands under its own key, and no key stands twice:
/// no transaction is in the pool more than once.
pub proof fn law_keys(config: MempoolConfig, height: i64, steps: Seq<Step>)
    ensures
        well_keyed(MempoolState::fresh(config, height).run(steps).entries),
    decreases steps.len(),
{
    if steps.len() > 0 {
        law_keys(config, height, steps.drop_last());
        law_step_keeps_keys(
            MempoolState::fresh(config, height).run(steps.drop_last()),
            steps.last(),
        );
    }
}

/// Adding a transaction again changes nothing, and nobody is told.
pub proof fn law_add_twice(pool: MempoolState, tx: TxRecord, again: TxRecord)
    requires
        tx.tx == again.tx,
    ensures
        pool.added(tx).added(again) == pool.added(tx),
        pool.added(tx).add_effects() == Seq::<Effect>::empty(),
{
    let t = pool.added(tx).entries;
    if !pool.has_tx(tx.tx) {
        assert(t[t.len() - 1].key == sha256(tx.tx));
    }
    assert(pool.added(tx).has_tx(tx.tx));
}

/// Removing a transaction that was just added to a pool without its key gives the pool back.
pub proof fn law_add_then_remove(pool: MempoolState, tx: TxRecord)
    requires
        !pool.has_tx(tx.tx),
    ensures
        pool.added(tx).removed(tx.tx) == pool,
{
    reveal(Seq::filter);
    lemma_without_absent_key(pool.entries, sha256(tx.tx));
    let t = pool.added(tx).entries;
    assert(t.drop_last() == pool.entries);
    lemma_total_of_push(pool.entries, t.last());
}

/// What is removed is not in the pool any more, and what has another key stays.
pub proof fn law_remove(pool: MempoolState, tx: Seq<u8>, other: Seq<u8>)
    ensures
        !pool.removed(tx).has_tx(tx),
        sha256(other) != sha256(tx) ==> pool.removed(tx).has_tx(other) == pool.has_tx(other),
{
    lemma_filter_is_exact(pool.entries, |e: Entry| e.key != sha256(tx));
}

/// In a well-keyed pool, a removal takes out one transaction where there is one under the key, and
/// else none.
pub proof fn law_remove_one(pool: MempoolState, tx: Seq<u8>)
    requires
        well_keyed(pool.entries),
    ensures
        pool.has_tx(tx) ==> pool.removed(tx).size() == pool.size() - 1,
        !pool.has_tx(tx) ==> pool.removed(tx) == pool,
{
    lemma_without_key(pool.entries, sha256(tx));
}

/// In a well-keyed pool, removing by key takes exactly the transaction under that key: the key is
/// gone, and what has another key stays.
pub proof fn law_remove_by_key(pool: MempoolState, key: Seq<u8>, other: Seq<u8>)
    requires
        well_keyed(pool.entries),
    ensures
        !has_key(pool.after(Step::RemoveByKey { key }).entries, key),
        other != key ==> has_key(pool.after(Step::RemoveByKey { key }).entries, other) == has_key(
            pool.entries,
            other,
        ),
        has_key(pool.entries, key) ==> pool.after(Step::RemoveByKey { key }).entries == without_key(
            pool.entries,
            key,
        ),
{
    if has_key(pool.entries, key) {
        let i = choose|i: int|
            0 <= i < pool.entries.len() && (#[trigger] pool.entries[i]).key == key;
        assert(pool.tx_at(key) == pool.entries[i].tx.tx);
        assert(sha256(pool.tx_at(key)) == key);
        lemma_filter_is_exact(pool.entries, |e: Entry| e.key != key);
    }
}

/// An update leaves nothing of the block in the pool, and takes nothing that has another key.
pub proof fn law_update(pool: MempoolState, height: i64, txs: Seq<Seq<u8>>, tx: Seq<u8>)
    ensures
        pool.updated(height, txs).has_tx(tx) <==> pool.has_tx(tx) && !keyed_by(sha256(tx), txs),
        txs.contains(tx) ==> !pool.updated(height, txs).has_tx(tx),
{
    lemma_filter_is_exact(pool.entries, |e: Entry| !keyed_by(e.key, txs));
    if txs.contains(tx) {
        let i = choose|i: int| 0 <= i < txs.len() && txs[i] == tx;
        assert(sha256(txs[i]) == sha256(tx));
    }
}

/// What is left after a filter that looks at keys alone are exactly the keys that it lets through.
proof fn lemma_filter_is_exact(s: Seq<Entry>, kept: spec_fn(Entry) -> bool)
    requires
        forall|a: Entry, b: Entry| a.key == b.key ==> #[trigger] kept(a) == #[trigger] kept(b),
    ensures
        forall|e: Entry|
            #[trigger] has_key(s.filter(kept), e.key) <==> has_key(s, e.key) && kept(e),
    decreases s.len(),
{
    reveal(Seq::filter);
    if s.len() == 0 {
        assert forall|e: Entry|
            !has_key(s, e.key) && !#[trigger] has_key(s.filter(kept), e.key) by {}
    } else {
        let t = s.drop_last();
        let f = t.filter(kept);
        lemma_filter_is_exact(t, kept);
        assert forall|e: Entry|
            #[trigger] has_key(s.filter(kept), e.key) <==> has_key(s, e.key) && kept(e) by {
            lemma_has_key_of_push(t, s.last(), e.key);
            assert(t.push(s.last()) == s);
            assert(has_key(f, e.key) <==> has_key(t, e.key) && kept(e));
            if kept(s.last()) {
                lemma_has_key_of_push(f, s.last(), e.key);
                assert(s.filter(kept) == f.push(s.last()));
            }
        }
    }
}

} // verus!
