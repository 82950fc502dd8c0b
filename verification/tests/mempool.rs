use std::collections::HashMap;

use clist_mempool::action::Action;
use clist_mempool::ffi::clist_mempool_new;
use clist_mempool::mempool::{CListMempool, CheckTxEvent};
use clist_mempool::tx::{hash_tx, MempoolTx, PeerId};

fn pool(max_tx_bytes: i64, max_txs_bytes: i64, size: i64, recheck: bool) -> CListMempool {
    let mut slot: Option<CListMempool> = None;
    let handle = clist_mempool_new(&mut slot, max_tx_bytes, max_txs_bytes, size, true, recheck, 7);
    assert_eq!(handle.unwrap().handle, 0);
    slot.unwrap()
}

fn roomy(recheck: bool) -> CListMempool {
    pool(1000, 1000, 1000, recheck)
}

fn tx(bytes: &[u8], gas_wanted: i64) -> MempoolTx {
    MempoolTx {
        height: 3,
        gas_wanted,
        tx: bytes.to_vec(),
        senders: HashMap::new(),
    }
}

fn contents(pool: &CListMempool) -> Vec<Vec<u8>> {
    pool.reap_max_txs(-1).iter().map(|t| t.tx.clone()).collect()
}

fn left_to_recheck(pool: &CListMempool) -> Vec<Vec<u8>> {
    pool.recheck_txs.iter().map(|t| t.tx.clone()).collect()
}

fn check_async(bytes: &[u8], set_callback: bool) -> Action {
    Action::CheckTxAsync {
        tx: bytes.to_vec(),
        set_callback,
    }
}

#[test]
fn key_is_the_sha256_digest() {
    let empty: [u8; 32] = [
        0xe3, 0xb0, 0xc4, 0x42, 0x98, 0xfc, 0x1c, 0x14, 0x9a, 0xfb, 0xf4, 0xc8, 0x99, 0x6f, 0xb9,
        0x24, 0x27, 0xae, 0x41, 0xe4, 0x64, 0x9b, 0x93, 0x4c, 0xa4, 0x95, 0x99, 0x1b, 0x78, 0x52,
        0xb8, 0x55,
    ];
    let abc: [u8; 32] = [
        0xba, 0x78, 0x16, 0xbf, 0x8f, 0x01, 0xcf, 0xea, 0x41, 0x41, 0x40, 0xde, 0x5d, 0xae, 0x22,
        0x23, 0xb0, 0x03, 0x61, 0xa3, 0x96, 0x17, 0x7a, 0x9c, 0xb4, 0x10, 0xff, 0x61, 0xf2, 0x00,
        0x15, 0xad,
    ];
    assert_eq!(hash_tx(&[]), empty);
    assert_eq!(hash_tx(b"abc"), abc);
}

#[test]
fn new_pool_is_empty() {
    let pool = pool(10, 20, 30, true);
    assert_eq!(pool.size(), 0);
    assert_eq!(pool.size_bytes(), 0);
    assert_eq!(pool.height, 7);
    assert_eq!(pool.config.max_tx_bytes, 10);
    assert_eq!(pool.config.max_txs_bytes, 20);
    assert_eq!(pool.config.size, 30);
    assert!(pool.config.recheck);
    assert!(!pool.notified_txs_available);
    assert!(pool.recheck_txs.is_empty());
    assert!(pool.front().is_none());
}

#[test]
fn first_transaction_ends_the_waiting() {
    let mut pool = roomy(false);
    assert_eq!(pool.add_tx(tx(b"one", 1)), vec![Action::CloseTxsWaitChan]);
    assert_eq!(pool.add_tx(tx(b"three", 1)), vec![]);
    assert_eq!(pool.size(), 2);
    assert_eq!(pool.size_bytes(), 8);
}

#[test]
fn same_transaction_is_added_once() {
    let mut pool = roomy(false);
    pool.add_tx(tx(b"one", 1));
    pool.add_tx(tx(b"two", 2));
    assert_eq!(pool.add_tx(tx(b"one", 9)), vec![]);
    assert_eq!(contents(&pool), vec![b"one".to_vec(), b"two".to_vec()]);
    assert_eq!(pool.size_bytes(), 6);
    assert_eq!(pool.front().unwrap().gas_wanted, 1);
}

#[test]
fn oldest_transaction_is_in_front() {
    let mut pool = roomy(false);
    pool.add_tx(tx(b"one", 1));
    pool.add_tx(tx(b"two", 2));
    let front = pool.front().unwrap();
    assert_eq!(front.tx, b"one".to_vec());
    assert_eq!(front.height, 3);
    assert!(front.senders.is_empty());
    pool.remove_tx(b"one");
    assert_eq!(pool.front().unwrap().tx, b"two".to_vec());
}

#[test]
fn removal_of_the_last_starts_the_waiting() {
    let mut pool = roomy(false);
    pool.add_tx(tx(b"one", 1));
    pool.add_tx(tx(b"three", 1));
    assert_eq!(pool.remove_tx(b"one"), vec![]);
    assert_eq!(pool.size_bytes(), 5);
    assert_eq!(pool.remove_tx(b"three"), vec![Action::MakeTxsWaitChan]);
    assert_eq!(pool.size(), 0);
    assert_eq!(pool.size_bytes(), 0);
}

#[test]
fn removal_after_addition_gives_the_pool_back() {
    let mut pool = roomy(false);
    pool.add_tx(tx(b"one", 1));
    pool.add_tx(tx(b"two", 1));
    pool.remove_tx(b"two");
    assert_eq!(contents(&pool), vec![b"one".to_vec()]);
    assert_eq!(pool.size_bytes(), 3);
}

#[test]
fn removal_of_what_is_not_there_counts_nothing() {
    let mut pool = roomy(false);
    pool.add_tx(tx(&[1, 2], 1));
    assert_eq!(pool.remove_tx(&[9, 9, 9]), vec![]);
    assert_eq!(pool.size(), 1);
    assert_eq!(pool.size_bytes(), 2);
    let mut empty = roomy(false);
    assert_eq!(empty.remove_tx(b"x"), vec![Action::MakeTxsWaitChan]);
    assert_eq!(empty.size_bytes(), 0);
}

#[test]
fn byte_count_is_the_total_size() {
    let mut pool = roomy(true);
    let mut counts: Vec<(i64, i64)> = Vec::new();
    let mut note = |pool: &CListMempool| {
        let total: usize = contents(pool).iter().map(|t| t.len()).sum();
        counts.push((pool.size_bytes(), total as i64));
    };
    for bytes in [&b"a"[..], b"bb", b"ccc", b"dddd", b"a"] {
        pool.add_tx(tx(bytes, 1));
        note(&pool);
    }
    pool.remove_tx(b"bb");
    note(&pool);
    pool.remove_tx(b"bb");
    note(&pool);
    pool.remove_tx_by_key(&hash_tx(b"ccc"));
    note(&pool);
    pool.update(8, &[b"foreign", b"a", b"a"]);
    note(&pool);
    pool.res_cb_post_check(1, b"not there", false);
    note(&pool);
    pool.res_cb_post_check(1, b"dddd", false);
    note(&pool);
    pool.flush();
    note(&pool);
    let expected: [i64; 12] = [1, 3, 6, 10, 10, 8, 8, 5, 4, 4, 0, 0];
    for (i, (count, total)) in counts.iter().enumerate() {
        assert_eq!(*count, expected[i]);
        assert_eq!(*total, expected[i]);
    }
    assert_eq!(counts.len(), expected.len());
}

#[test]
fn removal_keeps_the_order() {
    let mut pool = roomy(false);
    for bytes in [b"a", b"b", b"c", b"d"] {
        pool.add_tx(tx(bytes, 1));
    }
    pool.remove_tx(b"b");
    assert_eq!(contents(&pool), vec![b"a".to_vec(), b"c".to_vec(), b"d".to_vec()]);
    pool.add_tx(tx(b"b", 1));
    assert_eq!(
        contents(&pool),
        vec![b"a".to_vec(), b"c".to_vec(), b"d".to_vec(), b"b".to_vec()]
    );
}

#[test]
fn removal_by_key() {
    let mut pool = roomy(false);
    pool.add_tx(tx(b"one", 1));
    pool.add_tx(tx(b"three", 1));
    assert_eq!(pool.remove_tx_by_key(&hash_tx(b"one")), (false, vec![]));
    assert_eq!(contents(&pool), vec![b"three".to_vec()]);
    assert_eq!(pool.size_bytes(), 5);
    assert_eq!(pool.remove_tx_by_key(&hash_tx(b"one")), (true, vec![]));
    assert_eq!(pool.remove_tx_by_key(&hash_tx(b"three")[..31]), (true, vec![]));
    assert_eq!(pool.remove_tx_by_key(&[]), (true, vec![]));
    assert_eq!(pool.size_bytes(), 5);
    assert_eq!(
        pool.remove_tx_by_key(&hash_tx(b"three")),
        (false, vec![Action::MakeTxsWaitChan])
    );
}

#[test]
fn full_by_number_or_by_bytes() {
    let mut pool = pool(100, 10, 2, false);
    assert!(!pool.is_full(10));
    assert!(pool.is_full(11));
    pool.add_tx(tx(b"four", 1));
    assert!(!pool.is_full(6));
    assert!(pool.is_full(7));
    pool.add_tx(tx(b"x", 1));
    assert!(pool.is_full(0));
    pool.config.size = -1;
    assert!(pool.is_full(0));
}

#[test]
fn five_megabytes_hold_five_transactions_of_one() {
    let mut pool = pool(1 << 20, 5 << 20, 1000, false);
    for i in 0u8..10 {
        let mut bytes = vec![0u8; 1 << 20];
        bytes[0] = i;
        let actions = pool.res_cb_first_time(0, false, &bytes, 1, 0);
        assert_eq!(actions.is_empty(), i >= 5);
    }
    assert_eq!(pool.size(), 5);
    assert_eq!(pool.size_bytes(), 5 << 20);
}

#[test]
fn check_goes_step_by_step() {
    let pool = roomy(false);
    assert_eq!(
        pool.check_tx(b"one", CheckTxEvent::Received),
        Some(Action::AskPreCheck)
    );
    assert_eq!(
        pool.check_tx(b"one", CheckTxEvent::PreCheck { failed: false }),
        Some(Action::AskConnError)
    );
    assert_eq!(
        pool.check_tx(b"one", CheckTxEvent::ConnError { failed: false }),
        Some(check_async(b"one", true))
    );
    assert_eq!(pool.check_tx(b"one", CheckTxEvent::PreCheck { failed: true }), None);
    assert_eq!(pool.check_tx(b"one", CheckTxEvent::ConnError { failed: true }), None);
}

#[test]
fn check_refuses_what_is_too_large_or_has_no_room() {
    let large = pool(3, 1000, 1000, false);
    assert_eq!(large.check_tx(b"four", CheckTxEvent::Received), None);
    assert_eq!(
        large.check_tx(b"thr", CheckTxEvent::Received),
        Some(Action::AskPreCheck)
    );
    let no_bytes = pool(1000, 3, 1000, false);
    assert_eq!(no_bytes.check_tx(b"four", CheckTxEvent::Received), None);
    let no_place = pool(1000, 1000, 0, false);
    assert_eq!(no_place.check_tx(b"x", CheckTxEvent::Received), None);
}

#[test]
fn first_response_takes_a_valid_transaction_in() {
    let mut pool = roomy(true);
    assert_eq!(
        pool.res_cb_first_time(0, false, b"one", 5, 42),
        vec![Action::CloseTxsWaitChan, Action::AskTxsAvailableEnabled]
    );
    let front = pool.front().unwrap();
    assert_eq!(front.height, 7);
    assert_eq!(front.gas_wanted, 5);
    assert_eq!(front.tx, b"one".to_vec());
    assert_eq!(front.senders.len(), 1);
    assert_eq!(front.senders.get(&PeerId(42).0), Some(&true));
    assert_eq!(
        pool.res_cb_first_time(0, false, b"two", 5, 43),
        vec![Action::AskTxsAvailableEnabled]
    );
    assert_eq!(
        pool.res_cb_first_time(0, false, b"one", 5, 44),
        vec![Action::AskTxsAvailableEnabled]
    );
    assert_eq!(pool.size(), 2);
}

#[test]
fn first_response_leaves_an_invalid_transaction_out() {
    let mut pool = roomy(true);
    assert_eq!(pool.res_cb_first_time(1, false, b"one", 5, 42), vec![]);
    assert_eq!(pool.res_cb_first_time(0, true, b"one", 5, 42), vec![]);
    assert_eq!(pool.size(), 0);
    pool.config.size = 1;
    pool.res_cb_first_time(0, false, b"one", 5, 42);
    assert_eq!(pool.res_cb_first_time(0, false, b"two", 5, 42), vec![]);
    assert_eq!(contents(&pool), vec![b"one".to_vec()]);
}

#[test]
fn one_notification_until_the_next_update() {
    let mut pool = roomy(false);
    pool.add_tx(tx(b"one", 1));
    assert_eq!(pool.notify_txs_available(false), vec![]);
    assert!(!pool.notified_txs_available);
    assert_eq!(pool.notify_txs_available(true), vec![Action::NotifyTxsAvailable]);
    assert!(pool.notified_txs_available);
    assert_eq!(pool.notify_txs_available(true), vec![]);
    assert_eq!(pool.update(8, &[]), vec![Action::AskTxsAvailableEnabled]);
    assert!(!pool.notified_txs_available);
    assert_eq!(pool.notify_txs_available(true), vec![Action::NotifyTxsAvailable]);
}

#[test]
fn update_without_recheck() {
    let mut pool = roomy(false);
    for bytes in [b"a", b"b", b"c"] {
        pool.add_tx(tx(bytes, 1));
    }
    assert_eq!(
        pool.update(8, &[b"c", b"a"]),
        vec![Action::AskTxsAvailableEnabled]
    );
    assert_eq!(pool.height, 8);
    assert_eq!(contents(&pool), vec![b"b".to_vec()]);
    assert_eq!(pool.size_bytes(), 1);
    assert!(pool.recheck_txs.is_empty());
    assert_eq!(pool.update(9, &[b"b"]), vec![Action::MakeTxsWaitChan]);
    assert_eq!(pool.update(10, &[]), vec![]);
}

#[test]
fn update_counts_only_what_leaves() {
    let mut pool = roomy(false);
    pool.add_tx(tx(&[1], 1));
    assert_eq!(
        pool.update(2, &[&[9, 9]]),
        vec![Action::AskTxsAvailableEnabled]
    );
    assert_eq!(pool.height, 2);
    assert_eq!(pool.size(), 1);
    assert_eq!(pool.size_bytes(), 1);
    pool.add_tx(tx(b"two", 1));
    pool.update(3, &[b"two", b"two", b"foreign"]);
    assert_eq!(pool.size_bytes(), 1);
    assert_eq!(
        pool.update(4, &[&[1], b"b", b"c"]),
        vec![
            Action::MakeTxsWaitChan,
            Action::MakeTxsWaitChan,
            Action::MakeTxsWaitChan
        ]
    );
    assert_eq!(pool.size_bytes(), 0);
}

#[test]
fn update_with_recheck() {
    let mut pool = roomy(true);
    for bytes in [b"a", b"b", b"c"] {
        pool.add_tx(tx(bytes, 1));
    }
    assert_eq!(
        pool.update(8, &[b"b"]),
        vec![
            check_async(b"a", false),
            check_async(b"c", false),
            Action::FlushAsync
        ]
    );
    assert_eq!(left_to_recheck(&pool), vec![b"a".to_vec(), b"c".to_vec()]);
    assert_eq!(contents(&pool), vec![b"a".to_vec(), b"c".to_vec()]);
}

#[test]
fn recheck_from_the_front() {
    let mut pool = roomy(true);
    pool.add_tx(tx(&[1], 1));
    pool.add_tx(tx(&[2], 1));
    pool.update(8, &[]);
    assert_eq!(
        pool.res_cb_recheck(0, &[1]),
        vec![Action::AskPostCheck {
            check_tx_code: 0,
            tx: vec![1]
        }]
    );
    assert_eq!(pool.size(), 2);
    assert_eq!(left_to_recheck(&pool), vec![vec![2]]);
}

#[test]
fn recheck_in_order_skips_none() {
    let mut pool = roomy(true);
    for bytes in [b"a", b"b", b"c", b"d"] {
        pool.add_tx(tx(bytes, 1));
    }
    pool.update(8, &[b"b"]);
    let verdicts: [(&[u8], u32, bool); 3] = [(b"a", 1, false), (b"c", 0, false), (b"d", 0, true)];
    for (bytes, check_tx_code, has_post_check_err) in verdicts {
        assert_eq!(
            pool.res_cb_recheck(check_tx_code, bytes),
            vec![Action::AskPostCheck {
                check_tx_code,
                tx: bytes.to_vec()
            }]
        );
        pool.res_cb_post_check(check_tx_code, bytes, has_post_check_err);
    }
    assert!(pool.recheck_txs.is_empty());
    assert_eq!(contents(&pool), vec![b"c".to_vec()]);
    assert_eq!(pool.res_cb_recheck(0, b"c"), vec![]);
}

#[test]
fn recheck_response_skips_the_older_ones() {
    let mut pool = roomy(true);
    for bytes in [b"a", b"b", b"c", b"d"] {
        pool.add_tx(tx(bytes, 1));
    }
    pool.update(8, &[]);
    assert_eq!(
        pool.res_cb_recheck(1, b"c"),
        vec![
            Action::ReportRecheckMismatch,
            Action::ReportRecheckMismatch,
            Action::AskPostCheck {
                check_tx_code: 1,
                tx: b"c".to_vec()
            }
        ]
    );
    assert_eq!(left_to_recheck(&pool), vec![b"d".to_vec()]);
}

#[test]
fn recheck_takes_the_first_of_two_alike() {
    let mut pool = roomy(true);
    for bytes in [b"a", b"b", b"a", b"c"] {
        pool.recheck_txs.push(tx(bytes, 1));
    }
    pool.res_cb_recheck(0, b"a");
    assert_eq!(
        left_to_recheck(&pool),
        vec![b"b".to_vec(), b"a".to_vec(), b"c".to_vec()]
    );
}

#[test]
fn recheck_response_for_another_transaction() {
    let mut pool = roomy(true);
    pool.add_tx(tx(b"a", 1));
    pool.add_tx(tx(b"b", 1));
    pool.update(8, &[]);
    assert_eq!(
        pool.res_cb_recheck(0, b"x"),
        vec![
            Action::ReportRecheckMismatch,
            Action::ReportRecheckMismatch,
            Action::AskPostCheck {
                check_tx_code: 0,
                tx: b"x".to_vec()
            }
        ]
    );
    assert!(pool.recheck_txs.is_empty());
}

#[test]
fn post_check_decides_who_stays() {
    let mut pool = roomy(true);
    pool.add_tx(tx(b"a", 1));
    pool.add_tx(tx(b"b", 1));
    pool.add_tx(tx(b"c", 1));
    assert_eq!(
        pool.res_cb_post_check(0, b"a", false),
        vec![Action::AskTxsAvailableEnabled]
    );
    assert_eq!(pool.size(), 3);
    assert_eq!(
        pool.res_cb_post_check(1, b"a", false),
        vec![Action::AskTxsAvailableEnabled]
    );
    assert_eq!(
        pool.res_cb_post_check(0, b"b", true),
        vec![Action::AskTxsAvailableEnabled]
    );
    assert_eq!(contents(&pool), vec![b"c".to_vec()]);
    assert_eq!(
        pool.res_cb_post_check(1, b"c", true),
        vec![Action::MakeTxsWaitChan]
    );
    assert_eq!(pool.res_cb_post_check(0, b"c", false), vec![]);
}

#[test]
fn flush_takes_the_transactions_alone() {
    let mut pool = roomy(true);
    pool.add_tx(tx(b"a", 1));
    pool.update(8, &[]);
    pool.notify_txs_available(true);
    assert_eq!(pool.flush(), vec![Action::MakeTxsWaitChan]);
    assert_eq!(pool.size(), 0);
    assert_eq!(pool.size_bytes(), 0);
    assert_eq!(pool.height, 8);
    assert!(pool.notified_txs_available);
    assert_eq!(left_to_recheck(&pool), vec![b"a".to_vec()]);
}

#[test]
fn reap_up_to_a_number() {
    let mut pool = roomy(false);
    for bytes in [b"a", b"b", b"c"] {
        pool.add_tx(tx(bytes, 1));
    }
    assert_eq!(pool.reap_max_txs(0).len(), 0);
    assert_eq!(pool.reap_max_txs(2).len(), 2);
    assert_eq!(pool.reap_max_txs(2)[1].tx, b"b".to_vec());
    assert_eq!(pool.reap_max_txs(7).len(), 3);
    assert_eq!(pool.reap_max_txs(-1).len(), 3);
    assert_eq!(pool.size(), 3);
}

/// Reaps with these encoded sizes; `None` where a sum leaves its range. The second component is
/// how many sizes were wanted.
fn reap<'a>(
    pool: &'a CListMempool,
    max_bytes: i64,
    max_gas: i64,
    sizes: &[i64],
) -> (Option<Vec<&'a MempoolTx>>, usize) {
    let mut reaping = pool.reap_max_bytes_max_gas(max_bytes, max_gas);
    let all = pool.reap_max_txs(-1);
    let mut told: usize = 0;
    while let Some(tx) = reaping.wants() {
        assert_eq!(tx.tx, all[told].tx);
        told += 1;
        if !reaping.tell(sizes[told - 1]) {
            return (None, told);
        }
    }
    (Some(reaping.taken()), told)
}

#[test]
fn reap_within_bytes_and_gas() {
    let mut pool = roomy(false);
    pool.add_tx(tx(b"a", 10));
    pool.add_tx(tx(b"b", 20));
    pool.add_tx(tx(b"c", 1));
    let count = |max_bytes: i64, max_gas: i64| {
        reap(&pool, max_bytes, max_gas, &[5, 6, 7]).0.unwrap().len()
    };
    assert_eq!(count(-1, -1), 3);
    assert_eq!(count(18, 31), 3);
    assert_eq!(count(17, -1), 2);
    assert_eq!(count(11, -1), 2);
    assert_eq!(count(10, -1), 1);
    assert_eq!(count(0, -1), 0);
    assert_eq!(count(-1, 30), 2);
    assert_eq!(count(-1, 29), 1);
    assert_eq!(count(4, 1000), 0);
    let taken = reap(&pool, 11, 30, &[5, 6, 7]).0.unwrap();
    assert_eq!(taken[0].tx, b"a".to_vec());
    assert_eq!(taken[1].tx, b"b".to_vec());
    assert_eq!(pool.size(), 3);
}

#[test]
fn reap_stops_at_the_first_that_does_not_fit() {
    let mut pool = roomy(false);
    pool.add_tx(tx(b"a", 1));
    pool.add_tx(tx(b"b", 100));
    pool.add_tx(tx(b"c", 1));
    assert_eq!(reap(&pool, -1, 50, &[1, 1, 1]).0.unwrap().len(), 1);
}

#[test]
fn reap_asks_for_no_size_that_it_does_not_look_at() {
    let mut pool = roomy(false);
    assert_eq!(reap(&pool, -1, -1, &[]).1, 0);
    for bytes in [b"a", b"b", b"c"] {
        pool.add_tx(tx(bytes, 1));
    }
    assert_eq!(reap(&pool, 0, -1, &[1, 1, 1]).1, 1);
    assert_eq!(reap(&pool, 1, -1, &[1, 1, 1]).1, 2);
    assert_eq!(reap(&pool, -1, 2, &[1, 1, 1]).1, 3);
    assert_eq!(reap(&pool, -1, -1, &[1, 1, 1]).1, 3);
}

#[test]
fn reap_tells_when_a_sum_leaves_its_range() {
    let mut pool = roomy(false);
    pool.add_tx(tx(b"a", i64::MAX));
    pool.add_tx(tx(b"b", 1));
    assert!(reap(&pool, -1, -1, &[1, 1]).0.is_none());
    assert_eq!(reap(&pool, 1, -1, &[1, 1]).0.unwrap().len(), 1);
    assert!(reap(&pool, -1, -1, &[i64::MAX, 1]).0.is_none());
    assert_eq!(reap(&pool, -1, 3, &[1, i64::MAX]).0.unwrap().len(), 0);
    let mut reaping = pool.reap_max_bytes_max_gas(-1, -1);
    assert!(reaping.tell(i64::MAX));
    assert!(!reaping.tell(1));
    assert_eq!(reaping.wants().unwrap().tx, b"b".to_vec());
}

#[test]
fn guards_tell_what_is_in_range() {
    let mut pool = pool(i64::MAX, i64::MAX, 10, true);
    pool.add_tx(tx(b"a", 1));
    pool.add_tx(tx(b"bb", 1));

    assert!(pool.can_test_full(i64::MAX - 3));
    assert!(!pool.can_test_full(i64::MAX - 2));
    assert!(pool.can_test_room(b"c"));
    pool.config.size = 2;
    assert!(pool.can_test_full(i64::MAX));

    pool.txs_bytes = i64::MAX;
    assert!(pool.can_test_room(b"c"));
    pool.config.size = 3;
    assert!(!pool.can_test_room(b"c"));
    assert!(pool.can_add(b"a"));
    assert!(!pool.can_add(b"c"));
    assert!(pool.can_add(b""));

    pool.txs_bytes = i64::MIN + 1;
    assert!(pool.can_remove(b"a"));
    assert!(!pool.can_remove(b"bb"));
    assert!(pool.can_remove(b"not there"));
    assert!(pool.can_remove_by_key(&hash_tx(b"a")));
    assert!(!pool.can_remove_by_key(&hash_tx(b"bb")));
    assert!(pool.can_remove_by_key(b"no key"));
    pool.txs_bytes = i64::MIN + 2;
    assert!(pool.can_remove_all(&[b"bb", b"bb", b"not there"]));
    assert!(!pool.can_remove_all(&[b"bb", b"a"]));

    assert!(pool.any_stays(&[b"a"]));
    assert!(pool.any_stays(&[]));
    assert!(!pool.any_stays(&[b"bb", b"x", b"a"]));
}

#[test]
fn transactions_under_a_given_key() {
    let mut pool = roomy(false);
    let (one, two) = ([1u8; 32], [2u8; 32]);
    assert_eq!(pool.add_tx_under(one, tx(b"a", 1)), vec![Action::CloseTxsWaitChan]);
    assert_eq!(pool.add_tx_under(one, tx(b"bb", 1)), vec![]);
    assert_eq!(pool.add_tx_under(two, tx(b"ccc", 1)), vec![]);
    assert_eq!(contents(&pool), vec![b"a".to_vec(), b"ccc".to_vec()]);
    assert_eq!(pool.size_bytes(), 4);
    assert_eq!(pool.remove_tx_under(&one), vec![]);
    assert_eq!(pool.remove_tx_under(&one), vec![]);
    assert_eq!(pool.size_bytes(), 3);
    assert_eq!(pool.remove_tx_under(&two), vec![Action::MakeTxsWaitChan]);
    assert_eq!(pool.size_bytes(), 0);
}

#[test]
fn settling_a_pool() {
    let mut empty = roomy(true);
    assert_eq!(empty.settle(), vec![]);
    let mut announced = roomy(false);
    announced.add_tx(tx(b"a", 1));
    assert_eq!(announced.settle(), vec![Action::AskTxsAvailableEnabled]);
    assert!(announced.recheck_txs.is_empty());
    let mut rechecked = roomy(true);
    rechecked.add_tx(tx(b"a", 1));
    assert_eq!(
        rechecked.settle(),
        vec![check_async(b"a", false), Action::FlushAsync]
    );
    assert_eq!(left_to_recheck(&rechecked), vec![b"a".to_vec()]);
}
