//! The way of a transaction to validation.

use vstd::prelude::*;

use crate::action::Effect;
use crate::mempool::CheckTxEvent;
use crate::model::MempoolState;

verus! {

/// A transaction gets to validation exactly where there is room for it, it is not too large, the
/// node's check does not fail, and the application can be reached; and it gets there with the
/// callback set.
pub proof fn law_check(pool: MempoolState, tx: Seq<u8>, pre_check_failed: bool, conn_failed: bool)
    ensures
        ({
            let pre_check = CheckTxEvent::PreCheck { failed: pre_check_failed };
            let conn_error = CheckTxEvent::ConnError { failed: conn_failed };
            let submitted = {
                &&& pool.check_effect(tx, CheckTxEvent::Received) == Some(Effect::AskPreCheck)
                &&& pool.check_effect(tx, pre_check) == Some(Effect::AskConnError)
                &&& pool.check_effect(tx, conn_error) == Some(
                    Effect::CheckTxAsync { tx, set_callback: true },
                )
            };
            let refused = {
                ||| pool.check_effect(tx, CheckTxEvent::Received) is None
                ||| pool.check_effect(tx, pre_check) is None
                ||| pool.check_effect(tx, conn_error) is None
            };
            &&& submitted <==> {
                &&& pool.size() < pool.config.size
                &&& pool.txs_bytes + tx.len() <= pool.config.max_txs_bytes
                &&& tx.len() <= pool.config.max_tx_bytes
                &&& !pre_check_failed
                &&& !conn_failed
            }
            &&& refused <==> !submitted
        }),
{
}

/// Each check is decided by what it looks at alone: the first by the room in the pool and the size
/// of the transaction, the others by the reply that they wait for. The next one follows where it
/// does not fail.
pub proof fn law_check_by_check(pool: MempoolState, tx: Seq<u8>)
    ensures
        pool.entries.len() >= pool.config.size || pool.txs_bytes + tx.len()
            > pool.config.max_txs_bytes || tx.len() > pool.config.max_tx_bytes
            ==> pool.check_effect(tx, CheckTxEvent::Received) is None,
        pool.entries.len() < pool.config.size && pool.txs_bytes + tx.len()
            <= pool.config.max_txs_bytes && tx.len() <= pool.config.max_tx_bytes
            ==> pool.check_effect(tx, CheckTxEvent::Received) == Some(Effect::AskPreCheck),
        pool.check_effect(tx, CheckTxEvent::PreCheck { failed: true }) is None,
        pool.check_effect(tx, CheckTxEvent::PreCheck { failed: false }) == Some(
            Effect::AskConnError,
        ),
        pool.check_effect(tx, CheckTxEvent::ConnError { failed: true }) is None,
        pool.check_effect(tx, CheckTxEvent::ConnError { failed: false }) == Some(
            Effect::CheckTxAsync { tx, set_callback: true },
        ),
{
}

} // verus!
