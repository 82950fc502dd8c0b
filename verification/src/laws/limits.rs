//! The limits of a pool.

use vstd::prelude::*;

use crate::laws::Step;
use crate::laws::count::law_count;
use crate::laws::order::{law_order, lemma_in_order_len};
use crate::mempool::MempoolConfig;
use crate::model::{keyed_by, lemma_total_of_filter, total_bytes, MempoolState};
use crate::store::Entry;
use crate::tx::sha256;

verus! {

/// No step but a direct addition makes the pool exceed its limits, neither the number of
/// transactions nor the byte count. A flush sets the count to zero, which a negative limit does
/// not allow.
pub proof fn law_step_keeps_limits(pool: MempoolState, step: Step)
    requires
        !(step is Add),
        pool.within_limits(),
        step is Flush ==> pool.config.max_txs_bytes >= 0,
    ensures
        pool.after(step).within_limits(),
{
    law_order(pool, step);
    lemma_in_order_len(pool.after(step).entries, pool.entries);
    match step {
        Step::Remove { tx } => {
            lemma_total_of_filter(pool.entries, |e: Entry| e.key != sha256(tx));
        },
        Step::RemoveByKey { key } => {
            lemma_total_of_filter(pool.entries, |e: Entry| e.key != sha256(pool.tx_at(key)));
        },
        Step::PostCheck { code, tx, has_post_check_err } => {
            lemma_total_of_filter(pool.entries, |e: Entry| e.key != sha256(tx));
        },
        Step::Update { height, txs } => {
            lemma_total_of_filter(pool.entries, |e: Entry| !keyed_by(e.key, txs));
        },
        _ => {},
    }
}

/// A pool that takes transactions in by responses alone is never over its limits: neither the
/// number of its transactions nor their total size.
pub proof fn law_limits(config: MempoolConfig, height: i64, steps: Seq<Step>)
    requires
        config.size >= 0,
        config.max_txs_bytes >= 0,
        forall|i: int| 0 <= i < steps.len() ==> !(#[trigger] steps[i] is Add),
    ensures
        ({
            let pool = MempoolState::fresh(config, height).run(steps);
            &&& pool.config == config
            &&& pool.size() <= config.size
            &&& pool.txs_bytes <= config.max_txs_bytes
            &&& total_bytes(pool.entries) <= config.max_txs_bytes
        }),
    decreases steps.len(),
{
    law_count(config, height, steps);
    if steps.len() > 0 {
        law_limits(config, height, steps.drop_last());
        assert(!(steps[steps.len() - 1] is Add));
        law_step_keeps_limits(
            MempoolState::fresh(config, height).run(steps.drop_last()),
            steps.last(),
        );
    }
}

/// No step changes the limits.
pub proof fn law_config(pool: MempoolState, step: Step)
    ensures
        pool.after(step).config == pool.config,
{
}

} // verus!
