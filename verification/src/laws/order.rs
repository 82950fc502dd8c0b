//! First in, first out.

use vstd::prelude::*;

use crate::laws::Step;
use crate::model::{keyed_by, MempoolState};
use crate::store::Entry;
use crate::tx::{sha256, TxRecord};

verus! {

/// A transaction that is added comes after all that are there. Those stay as they are.
pub proof fn law_added_last(pool: MempoolState, tx: TxRecord)
    ensures
        pool.added(tx).txs() == if pool.has_tx(tx.tx) {
            pool.txs()
        } else {
            pool.txs().push(tx)
        },
{
}

/// Whether `part` is what is left of `all` when some of it is taken out.
pub open spec fn in_order(part: Seq<Entry>, all: Seq<Entry>) -> bool
    decreases all.len(),
{
    if part.len() == 0 {
        true
    } else if all.len() == 0 {
        false
    } else {
        ||| in_order(part, all.drop_last())
        ||| part.last() == all.last() && in_order(part.drop_last(), all.drop_last())
    }
}

pub(crate) proof fn lemma_filter_in_order(s: Seq<Entry>, kept: spec_fn(Entry) -> bool)
    ensures
        in_order(s.filter(kept), s),
    decreases s.len(),
{
    reveal(Seq::filter);
    if s.len() > 0 {
        lemma_filter_in_order(s.drop_last(), kept);
        let f = s.drop_last().filter(kept);
        if kept(s.last()) {
            assert(s.filter(kept) == f.push(s.last()));
            assert(f.push(s.last()).drop_last() == f);
        }
    }
}

proof fn lemma_in_order_itself(s: Seq<Entry>)
    ensures
        in_order(s, s),
    decreases s.len(),
{
    if s.len() > 0 {
        lemma_in_order_itself(s.drop_last());
    }
}

pub(crate) proof fn lemma_in_order_len(part: Seq<Entry>, all: Seq<Entry>)
    ensures
        in_order(part, all) ==> part.len() <= all.len(),
    decreases all.len(),
{
    if part.len() > 0 && all.len() > 0 {
        lemma_in_order_len(part, all.drop_last());
        lemma_in_order_len(part.drop_last(), all.drop_last());
    }
}

/// First in, first out: no step changes the order of the transactions that stay, and a new one
/// comes last.
pub proof fn law_order(pool: MempoolState, step: Step)
    ensures
        ({
            let rest = pool.after(step).entries;
            ||| in_order(rest, pool.entries)
            ||| rest.len() > 0 && rest.drop_last() == pool.entries
        }),
{
    lemma_in_order_itself(pool.entries);
    match step {
        Step::Add { record } => {
            let e = Entry { key: sha256(record.tx), tx: record };
            assert(pool.entries.push(e).drop_last() == pool.entries);
        },
        Step::FirstResponse { code, has_post_check_err, tx, gas_wanted, peer_id } => {
            let tx = pool.received(tx, gas_wanted, peer_id);
            assert(pool.entries.push(Entry { key: sha256(tx.tx), tx }).drop_last() == pool.entries);
        },
        Step::Remove { tx } => {
            lemma_filter_in_order(pool.entries, |e: Entry| e.key != sha256(tx));
        },
        Step::RemoveByKey { key } => {
            lemma_filter_in_order(pool.entries, |e: Entry| e.key != sha256(pool.tx_at(key)));
        },
        Step::PostCheck { code, tx, has_post_check_err } => {
            lemma_filter_in_order(pool.entries, |e: Entry| e.key != sha256(tx));
        },
        Step::Update { height, txs } => {
            lemma_filter_in_order(pool.entries, |e: Entry| !keyed_by(e.key, txs));
        },
        _ => {},
    }
}

} // verus!
