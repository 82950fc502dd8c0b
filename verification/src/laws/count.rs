//! The byte count.

use vstd::prelude::*;

use crate::laws::Step;
use crate::laws::keys::well_keyed;
use crate::mempool::MempoolConfig;
use crate::model::{
    fits_i64, keyed_by, lemma_total_of_filter, lemma_total_of_push, lemma_total_without_key,
    total_bytes, MempoolState,
};
use crate::store::Entry;
use crate::tx::sha256;

verus! {

impl MempoolState {
    /// Whether the byte count is the total size of the transactions in the pool.
    pub open spec fn accounted(self) -> bool {
        self.txs_bytes == total_bytes(self.entries)
    }
}

/// A step keeps the byte count the total size of the transactions in the pool.
pub proof fn law_step_keeps_count(pool: MempoolState, step: Step)
    requires
        pool.accounted(),
    ensures
        pool.after(step).accounted(),
{
    match step {
        Step::Add { record } => {
            lemma_total_of_push(pool.entries, Entry { key: sha256(record.tx), tx: record });
        },
        Step::FirstResponse { code, has_post_check_err, tx, gas_wanted, peer_id } => {
            let tx = pool.received(tx, gas_wanted, peer_id);
            lemma_total_of_push(pool.entries, Entry { key: sha256(tx.tx), tx });
        },
        _ => {},
    }
}

/// In every state of a pool the byte count is the total size of the transactions in it.
pub proof fn law_count(config: MempoolConfig, height: i64, steps: Seq<Step>)
    ensures
        MempoolState::fresh(config, height).run(steps).accounted(),
        MempoolState::fresh(config, height).run(steps).size() == 0 ==> MempoolState::fresh(
            config,
            height,
        ).run(steps).txs_bytes == 0,
    decreases steps.len(),
{
    if steps.len() > 0 {
        law_count(config, height, steps.drop_last());
        law_step_keeps_count(
            MempoolState::fresh(config, height).run(steps.drop_last()),
            steps.last(),
        );
    }
}

/// In a well-keyed pool, a removal makes the byte count less by the length of the transaction that
/// is under the key, and leaves it as it is where there is none.
pub proof fn law_count_of_removal(pool: MempoolState, tx: Seq<u8>)
    requires
        well_keyed(pool.entries),
    ensures
        pool.has_tx(tx) ==> pool.removed(tx).txs_bytes == pool.txs_bytes - pool.tx_at(
            sha256(tx),
        ).len(),
        !pool.has_tx(tx) ==> pool.removed(tx) == pool,
{
    lemma_total_without_key(pool.entries, sha256(tx));
}

/// While the byte count is the total size of the transactions in the pool, taking transactions out
/// is never out of range.
pub proof fn law_removal_is_in_range(
    pool: MempoolState,
    tx: Seq<u8>,
    key: Seq<u8>,
    txs: Seq<Seq<u8>>,
)
    requires
        pool.accounted(),
        fits_i64(pool.txs_bytes),
    ensures
        pool.remove_in_range(tx),
        pool.remove_by_key_in_range(key),
        pool.purge_in_range(txs),
{
    lemma_total_of_filter(pool.entries, |e: Entry| e.key != sha256(tx));
    lemma_total_of_filter(pool.entries, |e: Entry| e.key != sha256(pool.tx_at(key)));
    lemma_total_of_filter(pool.entries, |e: Entry| !keyed_by(e.key, txs));
}

} // verus!
