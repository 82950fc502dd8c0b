//! The operations of the one pool of a process, as a node in another language calls them.
//!
//! The pool stands in a slot that is empty until a pool is made. Nothing here is done to a pool
//! that is not ready for it: the call is refused, and the slot stays as it is.

use std::collections::HashMap;

use vstd::prelude::*;
use vstd::slice::slice_to_vec;

use crate::action::{effects, Action, Effect};
use crate::mempool::{CListMempool, CheckTxEvent, MempoolConfig};
use crate::model::{MempoolState, ABCI_CODE_TYPE_OK};
use crate::raw::{GoRawSlices, RawMempoolTx, RawSlice, RustRawSlices};
use crate::reap::Reaping;
use crate::store::{has_key, map_new};
use crate::tx::{sha256, MempoolTx, TxRecord};

verus! {

/// What a caller knows the pool by.
#[derive(Clone, Copy, Debug, PartialEq, Eq, Structural)]
pub struct Handle {
    pub handle: i32,
}

/// Why a call is refused.
#[derive(Clone, Copy, Debug, PartialEq, Eq, Structural)]
pub enum Refusal {
    /// A pool is made where there is one already.
    AlreadyInitialized,
    /// There is no pool.
    NotInitialized,
    /// A sum of sizes would leave the range of `i64`.
    OutOfRange,
    /// Transactions are still to be rechecked.
    RecheckUnderWay,
    /// There is no transaction to announce.
    Empty,
}

/// The state of the pool in a slot.
pub open spec fn state(mempool: Option<CListMempool>) -> Option<MempoolState> {
    match mempool {
        Some(pool) => Some(pool@),
        None => None,
    }
}

/// Makes a pool. There is no cache.
pub fn clist_mempool_new(
    mempool: &mut Option<CListMempool>,
    max_tx_bytes: i64,
    max_txs_bytes: i64,
    size: i64,
    _keep_invalid_txs_in_cache: bool,
    recheck: bool,
    height: i64,
) -> (handle: Result<Handle, Refusal>)
    ensures
        match state(*old(mempool)) {
            None => {
                &&& handle == Ok::<Handle, Refusal>(Handle { handle: 0 })
                &&& state(*final(mempool)) == Some(
                    MempoolState::fresh(
                        MempoolConfig { max_txs_bytes, max_tx_bytes, size, recheck },
                        height,
                    ),
                )
            },
            Some(_) => {
                &&& handle == Err::<Handle, Refusal>(Refusal::AlreadyInitialized)
                &&& *final(mempool) == *old(mempool)
            },
        },
{
    if mempool.is_some() {
        return Err(Refusal::AlreadyInitialized);
    }
    *mempool = Some(
        CListMempool {
            config: MempoolConfig { max_txs_bytes, max_tx_bytes, size, recheck },
            height,
            txs: map_new(),
            txs_bytes: 0,
            notified_txs_available: false,
            recheck_txs: Vec::new(),
        },
    );
    Ok(Handle { handle: 0 })
}

/// Adds a transaction without senders.
pub fn clist_mempool_add_tx(
    mempool: &mut Option<CListMempool>,
    _mempool_handle: Handle,
    height: i64,
    gas_wanted: i64,
    raw_tx: RawSlice,
) -> (actions: Result<Vec<Action>, Refusal>)
    requires
        !raw_tx.is_null(),
    ensures
        match state(*old(mempool)) {
            None => actions == Err::<Vec<Action>, Refusal>(Refusal::NotInitialized),
            Some(pool) => if pool.add_in_range(raw_tx@) {
                let tx = TxRecord { height, gas_wanted, tx: raw_tx@, senders: Map::empty() };
                &&& actions is Ok
                &&& state(*final(mempool)) == Some(pool.added(tx))
                &&& effects(actions->Ok_0@) == pool.add_effects()
            } else {
                actions == Err::<Vec<Action>, Refusal>(Refusal::OutOfRange)
            },
        },
        actions is Err ==> *final(mempool) == *old(mempool),
{
    match mempool {
        Some(pool) => {
            let tx = raw_tx.as_bytes();
            if !pool.can_add(tx) {
                return Err(Refusal::OutOfRange);
            }
            let mempool_tx = MempoolTx {
                height,
                gas_wanted,
                tx: slice_to_vec(tx),
                senders: HashMap::new(),
            };
            Ok(pool.add_tx(mempool_tx))
        },
        None => Err(Refusal::NotInitialized),
    }
}

/// The number of transactions in the pool.
pub fn clist_mempool_size(mempool: &Option<CListMempool>, _mempool_handle: Handle) -> (size: Result<
    usize,
    Refusal,
>)
    ensures
        match state(*mempool) {
            None => size == Err::<usize, Refusal>(Refusal::NotInitialized),
            Some(pool) => size is Ok && size->Ok_0 == pool.size(),
        },
{
    match mempool {
        Some(pool) => Ok(pool.size()),
        None => Err(Refusal::NotInitialized),
    }
}

/// The count of the bytes of the transactions in the pool.
pub fn clist_mempool_size_bytes(mempool: &Option<CListMempool>, _mempool_handle: Handle) -> (bytes:
    Result<i64, Refusal>)
    ensures
        match state(*mempool) {
            None => bytes == Err::<i64, Refusal>(Refusal::NotInitialized),
            Some(pool) => bytes is Ok && bytes->Ok_0 == pool.txs_bytes,
        },
{
    match mempool {
        Some(pool) => Ok(pool.size_bytes()),
        None => Err(Refusal::NotInitialized),
    }
}

/// Whether there is no room for a transaction of `tx_size` bytes.
pub fn clist_mempool_is_full(
    mempool: &Option<CListMempool>,
    _mempool_handle: Handle,
    tx_size: i64,
) -> (full: Result<bool, Refusal>)
    ensures
        match state(*mempool) {
            None => full == Err::<bool, Refusal>(Refusal::NotInitialized),
            Some(pool) => if pool.full_in_range(tx_size as int) {
                full == Ok::<bool, Refusal>(pool.full(tx_size as int))
            } else {
                full == Err::<bool, Refusal>(Refusal::OutOfRange)
            },
        },
{
    match mempool {
        Some(pool) => {
            if !pool.can_test_full(tx_size) {
                return Err(Refusal::OutOfRange);
            }
            Ok(pool.is_full(tx_size))
        },
        None => Err(Refusal::NotInitialized),
    }
}

/// Removes a transaction.
pub fn clist_mempool_remove_tx(
    mempool: &mut Option<CListMempool>,
    _mempool_handle: Handle,
    raw_tx: RawSlice,
    _remove_from_cache: bool,
) -> (actions: Result<Vec<Action>, Refusal>)
    requires
        !raw_tx.is_null(),
    ensures
        match state(*old(mempool)) {
            None => actions == Err::<Vec<Action>, Refusal>(Refusal::NotInitialized),
            Some(pool) => if pool.remove_in_range(raw_tx@) {
                &&& actions is Ok
                &&& state(*final(mempool)) == Some(pool.removed(raw_tx@))
                &&& effects(actions->Ok_0@) == pool.remove_effects(raw_tx@)
                &&& pool.removed(raw_tx@).txs_bytes == pool.txs_bytes - if pool.has_tx(raw_tx@) {
                    pool.tx_at(sha256(raw_tx@)).len() as int
                } else {
                    0
                }
            } else {
                actions == Err::<Vec<Action>, Refusal>(Refusal::OutOfRange)
            },
        },
        actions is Err ==> *final(mempool) == *old(mempool),
{
    match mempool {
        Some(pool) => {
            let tx = raw_tx.as_bytes();
            if !pool.can_remove(tx) {
                return Err(Refusal::OutOfRange);
            }
            Ok(pool.remove_tx(tx))
        },
        None => Err(Refusal::NotInitialized),
    }
}

/// Removes the transaction under a key. The first component says that there is none, as there is
/// none under a key that is not 32 bytes long.
pub fn clist_mempool_remove_tx_by_key(
    mempool: &mut Option<CListMempool>,
    _mempool_handle: Handle,
    raw_tx_hash: RawSlice,
) -> (outcome: Result<(bool, Vec<Action>), Refusal>)
    requires
        !raw_tx_hash.is_null(),
    ensures
        match state(*old(mempool)) {
            None => outcome == Err::<(bool, Vec<Action>), Refusal>(Refusal::NotInitialized),
            Some(pool) => if !has_key(pool.entries, raw_tx_hash@) {
                &&& outcome is Ok
                &&& outcome->Ok_0.0
                &&& outcome->Ok_0.1@.len() == 0
                &&& state(*final(mempool)) == Some(pool)
            } else if pool.remove_in_range(pool.tx_at(raw_tx_hash@)) {
                &&& outcome is Ok
                &&& !outcome->Ok_0.0
                &&& effects(outcome->Ok_0.1@) == pool.remove_effects(pool.tx_at(raw_tx_hash@))
                &&& state(*final(mempool)) == Some(pool.removed(pool.tx_at(raw_tx_hash@)))
            } else {
                outcome == Err::<(bool, Vec<Action>), Refusal>(Refusal::OutOfRange)
            },
        },
        outcome is Err ==> *final(mempool) == *old(mempool),
        raw_tx_hash@.len() != 32 && outcome is Ok ==> outcome->Ok_0.0,
{
    match mempool {
        Some(pool) => {
            let tx_hash = raw_tx_hash.as_bytes();
            if !pool.can_remove_by_key(tx_hash) {
                return Err(Refusal::OutOfRange);
            }
            Ok(pool.remove_tx_by_key(tx_hash))
        },
        None => Err(Refusal::NotInitialized),
    }
}

/// The oldest transaction; the null transaction where the pool is empty.
pub fn clist_mempool_tx_front<'a>(
    mempool: &'a Option<CListMempool>,
    _mempool_handle: Handle,
) -> (front: Result<RawMempoolTx<'a>, Refusal>)
    ensures
        match state(*mempool) {
            None => front == Err::<RawMempoolTx, Refusal>(Refusal::NotInitialized),
            Some(pool) => {
                &&& front is Ok
                &&& if pool.size() > 0 {
                    &&& front->Ok_0.stands_for(pool.txs()[0])
                    &&& front->Ok_0.height == pool.entries[0].tx.height
                    &&& front->Ok_0.gas_wanted == pool.entries[0].tx.gas_wanted
                    &&& front->Ok_0.raw_tx.ptr matches Some(bytes) && bytes@
                        == pool.entries[0].tx.tx
                    &&& front->Ok_0.senders matches Some(senders) && senders@.to_set()
                        == pool.entries[0].tx.senders.dom()
                } else {
                    front->Ok_0.is_null()
                }
            },
        },
{
    match mempool {
        Some(pool) => match pool.front() {
            Some(mem_tx) => Ok(RawMempoolTx::from(mem_tx)),
            None => Ok(RawMempoolTx::null()),
        },
        None => Err(Refusal::NotInitialized),
    }
}

/// Begins to take the oldest transactions within some limits. They stay in the pool. The caller
/// tells the encoded sizes as they are wanted, and makes the result with
/// [`RustRawSlices::from_txs`].
pub fn clist_mempool_reap_max_bytes_max_gas<'a>(
    mempool: &'a Option<CListMempool>,
    _mempool_handle: Handle,
    max_bytes: i64,
    max_gas: i64,
) -> (reaping: Result<Reaping<'a>, Refusal>)
    ensures
        match state(*mempool) {
            None => reaping == Err::<Reaping, Refusal>(Refusal::NotInitialized),
            Some(pool) => {
                &&& reaping is Ok
                &&& reaping->Ok_0.well_formed()
                &&& reaping->Ok_0@ == pool.reap_start(max_bytes, max_gas)
            },
        },
{
    match mempool {
        Some(pool) => Ok(pool.reap_max_bytes_max_gas(max_bytes, max_gas)),
        None => Err(Refusal::NotInitialized),
    }
}

/// The oldest transactions, at most `max_txs`, as raw transactions. They stay in the pool.
pub fn clist_mempool_reap_max_txs<'a>(
    mempool: &'a Option<CListMempool>,
    _mempool_handle: Handle,
    max_txs: i32,
) -> (txs: Result<RustRawSlices<'a>, Refusal>)
    ensures
        match state(*mempool) {
            None => txs == Err::<RustRawSlices, Refusal>(Refusal::NotInitialized),
            Some(pool) => {
                &&& txs is Ok
                &&& txs->Ok_0.no_null_inside()
                &&& txs->Ok_0@ == pool.raw_txs().take(pool.reap_count(max_txs) as int)
            },
        },
{
    match mempool {
        Some(pool) => Ok(RustRawSlices::from_txs(pool.reap_max_txs(max_txs))),
        None => Err(Refusal::NotInitialized),
    }
}

/// Takes the transactions of a block out of the pool.
pub fn clist_mempool_update(
    mempool: &mut Option<CListMempool>,
    _mempool_handle: Handle,
    height: i64,
    raw_txs: GoRawSlices,
) -> (actions: Result<Vec<Action>, Refusal>)
    requires
        raw_txs.no_null_inside(),
    ensures
        match state(*old(mempool)) {
            None => actions == Err::<Vec<Action>, Refusal>(Refusal::NotInitialized),
            Some(pool) => if !pool.purge_in_range(raw_txs@) {
                actions == Err::<Vec<Action>, Refusal>(Refusal::OutOfRange)
            } else if pool.recheck_collides(raw_txs@) {
                actions == Err::<Vec<Action>, Refusal>(Refusal::RecheckUnderWay)
            } else {
                &&& actions is Ok
                &&& state(*final(mempool)) == Some(pool.updated(height, raw_txs@))
                &&& effects(actions->Ok_0@) == pool.update_effects(raw_txs@)
            },
        },
        actions is Err ==> *final(mempool) == *old(mempool),
{
    match mempool {
        Some(pool) => {
            let txs = raw_txs.to_vec();
            if !pool.can_remove_all(txs.as_slice()) {
                return Err(Refusal::OutOfRange);
            }
            if pool.config.recheck && pool.recheck_txs.len() > 0 && pool.any_stays(txs.as_slice()) {
                return Err(Refusal::RecheckUnderWay);
            }
            Ok(pool.update(height, txs.as_slice()))
        },
        None => Err(Refusal::NotInitialized),
    }
}

/// Removes all transactions.
pub fn clist_mempool_flush(
    mempool: &mut Option<CListMempool>,
    _mempool_handle: Handle,
) -> (actions: Result<Vec<Action>, Refusal>)
    ensures
        match state(*old(mempool)) {
            None => {
                &&& actions == Err::<Vec<Action>, Refusal>(Refusal::NotInitialized)
                &&& *final(mempool) == *old(mempool)
            },
            Some(pool) => {
                &&& actions is Ok
                &&& state(*final(mempool)) == Some(pool.flushed())
                &&& effects(actions->Ok_0@) == seq![Effect::MakeTxsWaitChan]
            },
        },
{
    match mempool {
        Some(pool) => Ok(pool.flush()),
        None => Err(Refusal::NotInitialized),
    }
}

/// Takes a transaction through the checks before validation. `None` says that it fails one.
pub fn clist_mempool_check_tx(
    mempool: &Option<CListMempool>,
    _mempool_handle: Handle,
    raw_tx: RawSlice,
    event: CheckTxEvent,
) -> (action: Result<Option<Action>, Refusal>)
    requires
        !raw_tx.is_null(),
    ensures
        match state(*mempool) {
            None => action == Err::<Option<Action>, Refusal>(Refusal::NotInitialized),
            Some(pool) => if event is Received && !pool.full_in_range(raw_tx@.len() as int) {
                action == Err::<Option<Action>, Refusal>(Refusal::OutOfRange)
            } else {
                &&& action is Ok
                &&& match action->Ok_0 {
                    Some(next) => pool.check_effect(raw_tx@, event) == Some(next@),
                    None => pool.check_effect(raw_tx@, event) is None,
                }
            },
        },
{
    match mempool {
        Some(pool) => {
            let tx = raw_tx.as_bytes();
            if event == CheckTxEvent::Received && !pool.can_test_room(tx) {
                return Err(Refusal::OutOfRange);
            }
            Ok(pool.check_tx(tx, event))
        },
        None => Err(Refusal::NotInitialized),
    }
}

/// Takes the first response of the application to a transaction.
pub fn clist_mempool_res_cb_first_time(
    mempool: &mut Option<CListMempool>,
    _mempool_handle: Handle,
    check_tx_code: u32,
    has_post_check_err: bool,
    raw_tx: RawSlice,
    gas_wanted: i64,
    peer_id: u16,
) -> (actions: Result<Vec<Action>, Refusal>)
    requires
        !raw_tx.is_null(),
    ensures
        match state(*old(mempool)) {
            None => actions == Err::<Vec<Action>, Refusal>(Refusal::NotInitialized),
            Some(pool) => if pool.recheck_txs.len() > 0 {
                actions == Err::<Vec<Action>, Refusal>(Refusal::RecheckUnderWay)
            } else if check_tx_code == ABCI_CODE_TYPE_OK && !has_post_check_err
                && !pool.full_in_range(raw_tx@.len() as int) {
                actions == Err::<Vec<Action>, Refusal>(Refusal::OutOfRange)
            } else {
                &&& actions is Ok
                &&& state(*final(mempool)) == Some(
                    pool.first_checked(
                        check_tx_code,
                        has_post_check_err,
                        raw_tx@,
                        gas_wanted,
                        peer_id,
                    ),
                )
                &&& effects(actions->Ok_0@) == pool.first_response_effects(
                    check_tx_code,
                    has_post_check_err,
                    raw_tx@,
                )
                &&& pool.within_limits() ==> state(*final(mempool))->Some_0.within_limits()
            },
        },
        actions is Err ==> *final(mempool) == *old(mempool),
{
    match mempool {
        Some(pool) => {
            let tx = raw_tx.as_bytes();
            if pool.recheck_txs.len() > 0 {
                return Err(Refusal::RecheckUnderWay);
            }
            if check_tx_code == ABCI_CODE_TYPE_OK && !has_post_check_err && !pool.can_test_room(
                tx,
            ) {
                return Err(Refusal::OutOfRange);
            }
            Ok(pool.res_cb_first_time(check_tx_code, has_post_check_err, tx, gas_wanted, peer_id))
        },
        None => Err(Refusal::NotInitialized),
    }
}

/// Takes the response of the application to a transaction that is rechecked.
pub fn clist_mempool_res_cb_recheck(
    mempool: &mut Option<CListMempool>,
    _mempool_handle: Handle,
    check_tx_code: u32,
    raw_tx: RawSlice,
) -> (actions: Result<Vec<Action>, Refusal>)
    requires
        !raw_tx.is_null(),
    ensures
        match state(*old(mempool)) {
            None => {
                &&& actions == Err::<Vec<Action>, Refusal>(Refusal::NotInitialized)
                &&& *final(mempool) == *old(mempool)
            },
            Some(pool) => {
                &&& actions is Ok
                &&& state(*final(mempool)) == Some(pool.rechecked(raw_tx@))
                &&& effects(actions->Ok_0@) == pool.recheck_response_effects(check_tx_code, raw_tx@)
                &&& pool.recheck_txs.len() > 0 && pool.recheck_txs[0].tx == raw_tx@
                    ==> pool.rechecked(raw_tx@).recheck_txs == pool.recheck_txs.skip(1)
            },
        },
{
    match mempool {
        Some(pool) => Ok(pool.res_cb_recheck(check_tx_code, raw_tx.as_bytes())),
        None => Err(Refusal::NotInitialized),
    }
}

/// Takes the reply to [`Action::AskPostCheck`].
pub fn clist_mempool_res_cb_post_check(
    mempool: &mut Option<CListMempool>,
    _mempool_handle: Handle,
    check_tx_code: u32,
    raw_tx: RawSlice,
    has_post_check_err: bool,
) -> (actions: Result<Vec<Action>, Refusal>)
    requires
        !raw_tx.is_null(),
    ensures
        match state(*old(mempool)) {
            None => actions == Err::<Vec<Action>, Refusal>(Refusal::NotInitialized),
            Some(pool) => if (check_tx_code != ABCI_CODE_TYPE_OK || has_post_check_err)
                && !pool.remove_in_range(raw_tx@) {
                actions == Err::<Vec<Action>, Refusal>(Refusal::OutOfRange)
            } else {
                &&& actions is Ok
                &&& state(*final(mempool)) == Some(
                    pool.post_checked(check_tx_code, raw_tx@, has_post_check_err),
                )
                &&& effects(actions->Ok_0@) == pool.post_check_effects(
                    check_tx_code,
                    raw_tx@,
                    has_post_check_err,
                )
            },
        },
        actions is Err ==> *final(mempool) == *old(mempool),
{
    match mempool {
        Some(pool) => {
            let tx = raw_tx.as_bytes();
            if (check_tx_code != ABCI_CODE_TYPE_OK || has_post_check_err) && !pool.can_remove(tx) {
                return Err(Refusal::OutOfRange);
            }
            Ok(pool.res_cb_post_check(check_tx_code, tx, has_post_check_err))
        },
        None => Err(Refusal::NotInitialized),
    }
}

/// Takes the reply to [`Action::AskTxsAvailableEnabled`].
pub fn clist_mempool_notify_txs_available(
    mempool: &mut Option<CListMempool>,
    _mempool_handle: Handle,
    enabled: bool,
) -> (actions: Result<Vec<Action>, Refusal>)
    ensures
        match state(*old(mempool)) {
            None => actions == Err::<Vec<Action>, Refusal>(Refusal::NotInitialized),
            Some(pool) => if pool.size() == 0 {
                actions == Err::<Vec<Action>, Refusal>(Refusal::Empty)
            } else {
                &&& actions is Ok
                &&& state(*final(mempool)) == Some(pool.notified(enabled))
                &&& effects(actions->Ok_0@) == pool.notify_effects(enabled)
            },
        },
        actions is Err ==> *final(mempool) == *old(mempool),
{
    match mempool {
        Some(pool) => {
            if pool.size() == 0 {
                return Err(Refusal::Empty);
            }
            Ok(pool.notify_txs_available(enabled))
        },
        None => Err(Refusal::NotInitialized),
    }
}

/// Takes the pool away.
pub fn clist_mempool_free(
    mempool: &mut Option<CListMempool>,
    _mempool_handle: Handle,
) -> (freed: Result<(), Refusal>)
    ensures
        freed == match state(*old(mempool)) {
            None => Err::<(), Refusal>(Refusal::NotInitialized),
            Some(_) => Ok::<(), Refusal>(()),
        },
        state(*final(mempool)) is None,
{
    if mempool.is_none() {
        return Err(Refusal::NotInitialized);
    }
    *mempool = None;
    Ok(())
}

} // verus!
