use clist_mempool::action::Action;
use clist_mempool::ffi::{
    clist_mempool_add_tx, clist_mempool_check_tx, clist_mempool_flush, clist_mempool_free,
    clist_mempool_is_full, clist_mempool_new, clist_mempool_notify_txs_available,
    clist_mempool_reap_max_bytes_max_gas, clist_mempool_reap_max_txs, clist_mempool_remove_tx,
    clist_mempool_remove_tx_by_key, clist_mempool_res_cb_first_time,
    clist_mempool_res_cb_post_check, clist_mempool_res_cb_recheck, clist_mempool_size,
    clist_mempool_size_bytes, clist_mempool_tx_front, clist_mempool_update, Handle, Refusal,
};
use clist_mempool::mempool::{CListMempool, CheckTxEvent};
use clist_mempool::raw::{GoRawSlices, RawMempoolTx, RawSlice, RustRawSlices};
use clist_mempool::tx::hash_tx;

const HANDLE: Handle = Handle { handle: 0 };

fn made(recheck: bool) -> Option<CListMempool> {
    let mut slot: Option<CListMempool> = None;
    assert_eq!(
        clist_mempool_new(&mut slot, 1000, 1000, 1000, false, recheck, 1),
        Ok(HANDLE)
    );
    slot
}

fn slices<'a>(txs: &[&'a [u8]]) -> GoRawSlices<'a> {
    GoRawSlices {
        ptr: Some(txs.iter().map(|tx| RawSlice::from(*tx)).collect()),
    }
}

#[test]
fn there_is_one_pool() {
    let mut slot = made(false);
    clist_mempool_add_tx(&mut slot, HANDLE, 1, 1, RawSlice::from(&b"a"[..])).unwrap();
    assert_eq!(
        clist_mempool_new(&mut slot, 1, 1, 1, false, false, 1),
        Err(Refusal::AlreadyInitialized)
    );
    assert_eq!(clist_mempool_size(&slot, HANDLE), Ok(1));
    assert_eq!(clist_mempool_free(&mut slot, HANDLE), Ok(()));
    assert!(slot.is_none());
    assert_eq!(
        clist_mempool_free(&mut slot, HANDLE),
        Err(Refusal::NotInitialized)
    );
    assert_eq!(
        clist_mempool_new(&mut slot, 1, 1, 1, false, false, 1),
        Ok(HANDLE)
    );
    assert_eq!(clist_mempool_size(&slot, HANDLE), Ok(0));
}

#[test]
fn nothing_is_done_without_a_pool() {
    let mut slot: Option<CListMempool> = None;
    let a = RawSlice::from(&b"a"[..]);
    let no = Refusal::NotInitialized;
    assert_eq!(clist_mempool_size(&slot, HANDLE), Err(no));
    assert_eq!(clist_mempool_size_bytes(&slot, HANDLE), Err(no));
    assert_eq!(clist_mempool_is_full(&slot, HANDLE, 1), Err(no));
    assert_eq!(clist_mempool_add_tx(&mut slot, HANDLE, 1, 1, a), Err(no));
    assert_eq!(clist_mempool_remove_tx(&mut slot, HANDLE, a, false), Err(no));
    assert_eq!(clist_mempool_remove_tx_by_key(&mut slot, HANDLE, a), Err(no));
    assert!(matches!(
        clist_mempool_tx_front(&slot, HANDLE),
        Err(Refusal::NotInitialized)
    ));
    assert!(matches!(
        clist_mempool_reap_max_txs(&slot, HANDLE, 1),
        Err(Refusal::NotInitialized)
    ));
    assert!(matches!(
        clist_mempool_reap_max_bytes_max_gas(&slot, HANDLE, 1, 1),
        Err(Refusal::NotInitialized)
    ));
    assert_eq!(clist_mempool_update(&mut slot, HANDLE, 1, slices(&[])), Err(no));
    assert_eq!(clist_mempool_flush(&mut slot, HANDLE), Err(no));
    assert_eq!(
        clist_mempool_check_tx(&slot, HANDLE, a, CheckTxEvent::Received),
        Err(no)
    );
    assert_eq!(
        clist_mempool_res_cb_first_time(&mut slot, HANDLE, 0, false, a, 1, 1),
        Err(no)
    );
    assert_eq!(clist_mempool_res_cb_recheck(&mut slot, HANDLE, 0, a), Err(no));
    assert_eq!(
        clist_mempool_res_cb_post_check(&mut slot, HANDLE, 0, a, false),
        Err(no)
    );
    assert_eq!(
        clist_mempool_notify_txs_available(&mut slot, HANDLE, true),
        Err(no)
    );
    assert!(slot.is_none());
}

#[test]
fn additions_and_removals() {
    let mut slot = made(false);
    assert_eq!(
        clist_mempool_add_tx(&mut slot, HANDLE, 4, 5, RawSlice::from(&b"one"[..])),
        Ok(vec![Action::CloseTxsWaitChan])
    );
    clist_mempool_add_tx(&mut slot, HANDLE, 4, 5, RawSlice::from(&b"three"[..])).unwrap();
    assert_eq!(clist_mempool_size(&slot, HANDLE), Ok(2));
    assert_eq!(clist_mempool_size_bytes(&slot, HANDLE), Ok(8));
    assert_eq!(clist_mempool_is_full(&slot, HANDLE, 992), Ok(false));
    assert_eq!(clist_mempool_is_full(&slot, HANDLE, 993), Ok(true));
    assert_eq!(
        clist_mempool_remove_tx(&mut slot, HANDLE, RawSlice::from(&b"one"[..]), true),
        Ok(vec![])
    );
    let key = hash_tx(b"three");
    assert_eq!(
        clist_mempool_remove_tx_by_key(&mut slot, HANDLE, RawSlice::from(&key[..5])),
        Ok((true, vec![]))
    );
    assert_eq!(
        clist_mempool_remove_tx_by_key(&mut slot, HANDLE, RawSlice::from(&key[..])),
        Ok((false, vec![Action::MakeTxsWaitChan]))
    );
    assert_eq!(clist_mempool_size(&slot, HANDLE), Ok(0));
}

#[test]
fn front_of_a_pool() {
    let mut slot = made(false);
    let none = clist_mempool_tx_front(&slot, HANDLE).unwrap();
    assert_eq!((none.height, none.gas_wanted), (0, 0));
    assert!(none.raw_tx.ptr.is_none());
    assert!(none.senders.is_none());

    clist_mempool_add_tx(&mut slot, HANDLE, 4, 5, RawSlice::from(&b"one"[..])).unwrap();
    let one = clist_mempool_tx_front(&slot, HANDLE).unwrap();
    assert_eq!((one.height, one.gas_wanted), (4, 5));
    assert_eq!(one.raw_tx.as_bytes(), &b"one"[..]);
    assert_eq!(one.senders, Some(vec![]));

    clist_mempool_flush(&mut slot, HANDLE).unwrap();
    clist_mempool_res_cb_first_time(&mut slot, HANDLE, 0, false, RawSlice::from(&b"two"[..]), 6, 9)
        .unwrap();
    let two = clist_mempool_tx_front(&slot, HANDLE).unwrap();
    assert_eq!((two.height, two.gas_wanted), (1, 6));
    assert_eq!(two.senders, Some(vec![9]));
}

#[test]
fn null_transaction() {
    let null = RawMempoolTx::null();
    assert_eq!((null.height, null.gas_wanted), (0, 0));
    assert!(null.raw_tx.ptr.is_none());
    assert!(null.senders.is_none());
}

#[test]
fn all_senders_are_handed_out() {
    let mut slot = made(false);
    clist_mempool_add_tx(&mut slot, HANDLE, 4, 5, RawSlice::from(&b"one"[..])).unwrap();
    let mut tx = slot.as_ref().unwrap().front().unwrap().clone();
    tx.senders.insert(3, true);
    tx.senders.insert(1, true);
    tx.senders.insert(2, false);
    let mut senders = RawMempoolTx::from(&tx).senders.unwrap();
    senders.sort();
    assert_eq!(senders, vec![1, 2, 3]);
}

#[test]
fn reaped_transactions() {
    let mut slot = made(false);
    for tx in [&b"one"[..], &b"two"[..], &b"three"[..]] {
        clist_mempool_add_tx(&mut slot, HANDLE, 4, 5, RawSlice::from(tx)).unwrap();
    }
    let some = clist_mempool_reap_max_txs(&slot, HANDLE, 2).unwrap();
    assert_eq!(some.slices.len(), 2);
    assert_eq!(some.slices[0].as_bytes(), &b"one"[..]);
    assert_eq!(some.slices[1].as_bytes(), &b"two"[..]);
    let mut reaping = clist_mempool_reap_max_bytes_max_gas(&slot, HANDLE, 10, 10).unwrap();
    while let Some(tx) = reaping.wants() {
        assert!(reaping.tell(tx.tx.len() as i64 + 2));
    }
    let some = RustRawSlices::from_txs(reaping.taken());
    assert_eq!(some.slices.len(), 2);
    assert_eq!(some.slices[1].as_bytes(), &b"two"[..]);
    let mut reaping = clist_mempool_reap_max_bytes_max_gas(&slot, HANDLE, -1, -1).unwrap();
    while let Some(tx) = reaping.wants() {
        assert!(reaping.tell(tx.tx.len() as i64));
    }
    let all = RustRawSlices::from_txs(reaping.taken());
    assert_eq!(all.slices.len(), 3);
    assert_eq!(all.slices[2].as_bytes(), &b"three"[..]);
}

#[test]
fn null_block_is_an_empty_block() {
    let mut slot = made(false);
    clist_mempool_add_tx(&mut slot, HANDLE, 4, 5, RawSlice::from(&b"one"[..])).unwrap();
    assert_eq!(
        clist_mempool_update(&mut slot, HANDLE, 2, GoRawSlices { ptr: None }),
        Ok(vec![Action::AskTxsAvailableEnabled])
    );
    assert_eq!(slot.as_ref().unwrap().height, 2);
    assert_eq!(
        clist_mempool_update(&mut slot, HANDLE, 3, slices(&[b"one"])),
        Ok(vec![Action::MakeTxsWaitChan])
    );
}

#[test]
fn recheck_under_way() {
    let mut slot = made(true);
    let a = RawSlice::from(&b"a"[..]);
    let b = RawSlice::from(&b"b"[..]);
    clist_mempool_add_tx(&mut slot, HANDLE, 1, 1, a).unwrap();
    clist_mempool_add_tx(&mut slot, HANDLE, 1, 1, b).unwrap();
    clist_mempool_update(&mut slot, HANDLE, 2, slices(&[])).unwrap();
    assert_eq!(
        clist_mempool_update(&mut slot, HANDLE, 3, slices(&[b"a"])),
        Err(Refusal::RecheckUnderWay)
    );
    assert_eq!(slot.as_ref().unwrap().height, 2);
    assert_eq!(
        clist_mempool_res_cb_first_time(&mut slot, HANDLE, 1, false, a, 1, 1),
        Err(Refusal::RecheckUnderWay)
    );
    assert_eq!(
        clist_mempool_res_cb_recheck(&mut slot, HANDLE, 0, a),
        Ok(vec![Action::AskPostCheck {
            check_tx_code: 0,
            tx: b"a".to_vec()
        }])
    );
    assert_eq!(
        clist_mempool_res_cb_post_check(&mut slot, HANDLE, 0, a, false),
        Ok(vec![Action::AskTxsAvailableEnabled])
    );
    assert_eq!(
        clist_mempool_update(&mut slot, HANDLE, 3, slices(&[b"a", b"b"])),
        Ok(vec![Action::MakeTxsWaitChan])
    );
    assert_eq!(slot.as_ref().unwrap().recheck_txs.len(), 1);
}

#[test]
fn sums_that_leave_the_range() {
    let mut slot = made(false);
    let a = RawSlice::from(&b"a"[..]);
    slot.as_mut().unwrap().txs_bytes = i64::MAX;
    let no = Refusal::OutOfRange;
    assert_eq!(clist_mempool_add_tx(&mut slot, HANDLE, 1, 1, a), Err(no));
    assert_eq!(clist_mempool_is_full(&slot, HANDLE, 1), Err(no));
    assert_eq!(
        clist_mempool_check_tx(&slot, HANDLE, a, CheckTxEvent::Received),
        Err(no)
    );
    assert_eq!(
        clist_mempool_check_tx(&slot, HANDLE, a, CheckTxEvent::PreCheck { failed: false }),
        Ok(Some(Action::AskConnError))
    );
    assert_eq!(
        clist_mempool_res_cb_first_time(&mut slot, HANDLE, 0, false, a, 1, 1),
        Err(no)
    );
    assert_eq!(
        clist_mempool_res_cb_first_time(&mut slot, HANDLE, 2, false, a, 1, 1),
        Ok(vec![])
    );
    slot.as_mut().unwrap().txs_bytes = 0;
    clist_mempool_add_tx(&mut slot, HANDLE, 1, 1, a).unwrap();
    slot.as_mut().unwrap().txs_bytes = i64::MIN;
    assert_eq!(clist_mempool_remove_tx(&mut slot, HANDLE, a, false), Err(no));
    assert_eq!(
        clist_mempool_update(&mut slot, HANDLE, 2, slices(&[b"a"])),
        Err(no)
    );
    assert_eq!(
        clist_mempool_res_cb_post_check(&mut slot, HANDLE, 1, a, false),
        Err(no)
    );
    assert_eq!(
        clist_mempool_remove_tx_by_key(&mut slot, HANDLE, RawSlice::from(&hash_tx(b"a")[..])),
        Err(no)
    );
    assert_eq!(clist_mempool_size(&slot, HANDLE), Ok(1));
    let b = RawSlice::from(&b"b"[..]);
    assert_eq!(clist_mempool_remove_tx(&mut slot, HANDLE, b, false), Ok(vec![]));
}

#[test]
fn announcement_of_an_empty_pool() {
    let mut slot = made(false);
    assert_eq!(
        clist_mempool_notify_txs_available(&mut slot, HANDLE, true),
        Err(Refusal::Empty)
    );
    clist_mempool_add_tx(&mut slot, HANDLE, 1, 1, RawSlice::from(&b"a"[..])).unwrap();
    assert_eq!(
        clist_mempool_notify_txs_available(&mut slot, HANDLE, true),
        Ok(vec![Action::NotifyTxsAvailable])
    );
    assert_eq!(
        clist_mempool_notify_txs_available(&mut slot, HANDLE, true),
        Ok(vec![])
    );
}

#[test]
fn way_to_validation() {
    let slot = made(false);
    let a = RawSlice::from(&b"a"[..]);
    assert_eq!(
        clist_mempool_check_tx(&slot, HANDLE, a, CheckTxEvent::Received),
        Ok(Some(Action::AskPreCheck))
    );
    assert_eq!(
        clist_mempool_check_tx(&slot, HANDLE, a, CheckTxEvent::PreCheck { failed: true }),
        Ok(None)
    );
    assert_eq!(
        clist_mempool_check_tx(&slot, HANDLE, a, CheckTxEvent::ConnError { failed: false }),
        Ok(Some(Action::CheckTxAsync {
            tx: b"a".to_vec(),
            set_callback: true
        }))
    );
}

#[test]
fn waiting_goes_with_emptiness() {
    let mut slot = made(false);
    let a = RawSlice::from(&b"a"[..]);
    let mut waiting = true;
    let mut seen: Vec<bool> = Vec::new();
    let batches = vec![
        clist_mempool_add_tx(&mut slot, HANDLE, 1, 1, a).unwrap(),
        clist_mempool_update(&mut slot, HANDLE, 2, slices(&[b"x"])).unwrap(),
        clist_mempool_remove_tx(&mut slot, HANDLE, a, false).unwrap(),
        clist_mempool_res_cb_first_time(&mut slot, HANDLE, 0, false, a, 1, 1).unwrap(),
        clist_mempool_flush(&mut slot, HANDLE).unwrap(),
    ];
    for batch in batches {
        for action in batch {
            match action {
                Action::CloseTxsWaitChan => waiting = false,
                Action::MakeTxsWaitChan => waiting = true,
                _ => {}
            }
        }
        seen.push(waiting);
    }
    assert_eq!(seen, vec![false, false, true, false, true]);
}
