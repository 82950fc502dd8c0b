//! The pool itself.

use linked_hash_map::LinkedHashMap;
use vstd::prelude::*;
use vstd::slice::slice_to_vec;

use crate::action::{effects, Action, Effect};
use crate::model::{
    is_first_match, lemma_first_match_is_unique, lemma_total_of_prefix, lemma_total_without_key,
    lemma_without_no_keys, MempoolState, ABCI_CODE_TYPE_OK,
};
use crate::store::{
    entries, has_key, lemma_without_absent_key, lemma_without_key, map_clear,
    map_contains_key, map_front, map_get, map_insert, map_is_empty, map_iter, map_len, map_remove,
};
use crate::tx::{hash_tx, same_bytes, sent_by, sha256, MempoolTx, PeerId, TxKeyHash, TxRecord};

verus! {

/// The limits of a pool.
#[derive(Clone, Copy, Debug, PartialEq, Eq, Structural)]
pub struct MempoolConfig {
    /// Limit on the total size of all transactions in the pool. This only accounts for raw
    /// transactions: given transactions of 1 MB and a limit of 5 MB, the pool accepts 5.
    pub max_txs_bytes: i64,
    /// Maximum size of a single transaction.
    pub max_tx_bytes: i64,
    /// Maximum number of transactions in the pool.
    pub size: i64,
    /// Whether the transactions that stay after an update are validated again.
    pub recheck: bool,
}

/// What happens to a transaction that is to be validated.
#[derive(Clone, Copy, Debug, PartialEq, Eq, Structural)]
pub enum CheckTxEvent {
    /// It arrives.
    Received,
    /// The node's check before validation is done.
    PreCheck { failed: bool },
    /// The state of the connection to the application is known.
    ConnError { failed: bool },
}

/// Raw transactions as sequences of bytes.
pub open spec fn bytes_of(txs: Seq<&[u8]>) -> Seq<Seq<u8>> {
    txs.map_values(|tx: &[u8]| tx@)
}

/// What some transactions hold.
pub open spec fn records(txs: Seq<MempoolTx>) -> Seq<TxRecord> {
    txs.map_values(|tx: MempoolTx| tx@)
}

/// A pool of transactions, in the order in which they came.
pub struct CListMempool {
    pub config: MempoolConfig,
    pub height: i64,
    /// The transactions by their keys, in the order in which they came.
    pub txs: LinkedHashMap<TxKeyHash, MempoolTx>,
    /// The total size of all transactions in the pool.
    pub txs_bytes: i64,
    pub notified_txs_available: bool,
    /// The transactions that are left to recheck after an update, the oldest first. Their
    /// responses come in this order.
    pub recheck_txs: Vec<MempoolTx>,
}

impl View for CListMempool {
    type V = MempoolState;

    open spec fn view(&self) -> MempoolState {
        MempoolState {
            config: self.config,
            height: self.height,
            entries: entries(self.txs),
            txs_bytes: self.txs_bytes as int,
            notified_txs_available: self.notified_txs_available,
            recheck_txs: records(self.recheck_txs@),
        }
    }
}

impl CListMempool {
    /// Appends a transaction, unless one with its key is there.
    pub fn add_tx(&mut self, mem_tx: MempoolTx) -> (actions: Vec<Action>)
        requires
            old(self)@.add_in_range(mem_tx.tx@),
        ensures
            final(self)@ == old(self)@.added(mem_tx@),
            effects(actions@) == old(self)@.add_effects(),
    {
        let tx_hash = hash_tx(mem_tx.tx.as_slice());
        self.add_tx_under(tx_hash, mem_tx)
    }

    /// Appends a transaction under the key `tx_hash`, unless there is one under that key.
    pub fn add_tx_under(&mut self, tx_hash: TxKeyHash, mem_tx: MempoolTx) -> (actions: Vec<Action>)
        requires
            old(self)@.add_under_in_range(tx_hash@, mem_tx.tx@),
        ensures
            final(self)@ == old(self)@.added_under(tx_hash@, mem_tx@),
            effects(actions@) == old(self)@.add_effects(),
    {
        let mut actions: Vec<Action> = Vec::new();
        if map_contains_key(&self.txs, tx_hash.as_slice()) {
            return actions;
        }
        self.txs_bytes = (self.txs_bytes as i128 + mem_tx.tx.len() as i128) as i64;
        proof {
            lemma_without_absent_key(self@.entries, tx_hash@);
        }
        map_insert(&mut self.txs, tx_hash, mem_tx);

        if self.size() == 1 {
            // the pool was empty: whoever waits for transactions goes on
            actions.push(Action::CloseTxsWaitChan);
        }
        actions
    }

    /// Removes the transaction under the key of `tx`, where there is one. The byte count is less
    /// by the size of what is removed.
    pub fn remove_tx(&mut self, tx: &[u8]) -> (actions: Vec<Action>)
        requires
            old(self)@.remove_in_range(tx@),
        ensures
            final(self)@ == old(self)@.removed(tx@),
            effects(actions@) == old(self)@.remove_effects(tx@),
            !final(self)@.has_tx(tx@),
            !old(self)@.has_tx(tx@) ==> final(self)@ == old(self)@,
            old(self)@.has_tx(tx@) ==> {
                &&& final(self)@.size() == old(self)@.size() - 1
                &&& final(self)@.txs_bytes == old(self)@.txs_bytes - old(self)@.tx_at(
                    sha256(tx@),
                ).len()
            },
    {
        let tx_hash = hash_tx(tx);
        self.remove_tx_under(&tx_hash)
    }

    /// Removes the transaction under the key `tx_hash`, where there is one. The byte count is less
    /// by the size of what is removed.
    pub fn remove_tx_under(&mut self, tx_hash: &TxKeyHash) -> (actions: Vec<Action>)
        requires
            old(self)@.remove_under_in_range(tx_hash@),
        ensures
            final(self)@ == old(self)@.removed_under(tx_hash@),
            effects(actions@) == old(self)@.remove_under_effects(tx_hash@),
            !has_key(final(self)@.entries, tx_hash@),
            !has_key(old(self)@.entries, tx_hash@) ==> final(self)@ == old(self)@,
            has_key(old(self)@.entries, tx_hash@) ==> {
                &&& final(self)@.size() == old(self)@.size() - 1
                &&& final(self)@.txs_bytes == old(self)@.txs_bytes - old(self)@.tx_at(
                    tx_hash@,
                ).len()
            },
    {
        let leaving: usize = match map_get(&self.txs, tx_hash.as_slice()) {
            Some(mem_tx) => mem_tx.tx.len(),
            None => 0,
        };
        proof {
            lemma_without_key(self@.entries, tx_hash@);
            lemma_total_without_key(self@.entries, tx_hash@);
        }
        map_remove(&mut self.txs, tx_hash);
        self.txs_bytes = (self.txs_bytes as i128 - leaving as i128) as i64;

        let mut actions: Vec<Action> = Vec::new();
        if map_is_empty(&self.txs) {
            // nothing is left: whoever needs transactions waits
            actions.push(Action::MakeTxsWaitChan);
        }
        actions
    }

    /// Removes the transaction under the key `tx_hash`. The first component says that there is
    /// none; nothing is done then. There is none under a key that is not 32 bytes long.
    pub fn remove_tx_by_key(&mut self, tx_hash: &[u8]) -> (outcome: (bool, Vec<Action>))
        requires
            old(self)@.remove_by_key_in_range(tx_hash@),
        ensures
            outcome.0 == !has_key(old(self)@.entries, tx_hash@),
            tx_hash@.len() != 32 ==> outcome.0,
            outcome.0 ==> final(self)@ == old(self)@ && outcome.1@.len() == 0,
            !outcome.0 ==> {
                &&& final(self)@ == old(self)@.removed(old(self)@.tx_at(tx_hash@))
                &&& effects(outcome.1@) == old(self)@.remove_effects(old(self)@.tx_at(tx_hash@))
            },
    {
        if !map_contains_key(&self.txs, tx_hash) {
            return (true, Vec::new());
        }
        match map_get(&self.txs, tx_hash) {
            Some(mem_tx) => {
                let tx = mem_tx.tx.clone();
                (false, self.remove_tx(tx.as_slice()))
            },
            None => (true, Vec::new()),
        }
    }

    /// The number of transactions in the pool.
    pub fn size(&self) -> (size: usize)
        ensures
            size == self@.size(),
            size == self@.entries.len(),
    {
        map_len(&self.txs)
    }

    /// The total size of all transactions in the pool.
    pub fn size_bytes(&self) -> (bytes: i64)
        ensures
            bytes == self@.txs_bytes,
    {
        self.txs_bytes
    }

    /// Whether there is no room for a transaction of `tx_size` bytes.
    pub fn is_full(&self, tx_size: i64) -> (full: bool)
        requires
            self@.full_in_range(tx_size as int),
        ensures
            full == self@.full(tx_size as int),
    {
        self.no_room_for(tx_size as i128)
    }

    /// Whether there is no room for `tx_size` bytes more. The sum is taken in a type that holds it
    /// for any length of a slice.
    fn no_room_for(&self, tx_size: i128) -> (full: bool)
        requires
            i64::MIN <= tx_size <= u64::MAX,
        ensures
            full == self@.full(tx_size as int),
    {
        let mem_size = map_len(&self.txs);

        self.config.size <= 0 || mem_size as u64 >= self.config.size as u64
            || self.txs_bytes as i128 + tx_size > self.config.max_txs_bytes as i128
    }

    /// The oldest transaction in the pool, or `None` where the pool is empty.
    pub fn front(&self) -> (front: Option<&MempoolTx>)
        ensures
            match front {
                Some(tx) => {
                    &&& self@.size() > 0
                    &&& tx@ == self@.txs()[0]
                    &&& tx@ == self@.entries[0].tx
                },
                None => self@.size() == 0,
            },
    {
        match map_front(&self.txs) {
            Some((_tx_hash, tx)) => Some(tx),
            None => None,
        }
    }

    /// Takes a transaction through the checks before validation: that there is room for it and
    /// that it is not too large, then the node's own check, then that the application can be
    /// reached. `None` says that the transaction is refused.
    pub fn check_tx(&self, tx: &[u8], event: CheckTxEvent) -> (action: Option<Action>)
        requires
            event is Received ==> self@.full_in_range(tx@.len() as int),
        ensures
            match action {
                Some(action) => self@.check_effect(tx@, event) == Some(action@),
                None => self@.check_effect(tx@, event) is None,
            },
    {
        match event {
            CheckTxEvent::Received => {
                let tx_size = tx.len() as i128;
                if self.no_room_for(tx_size) {
                    return None;
                }
                if tx_size > self.config.max_tx_bytes as i128 {
                    return None;
                }
                Some(Action::AskPreCheck)
            },
            CheckTxEvent::PreCheck { failed } => {
                if failed {
                    return None;
                }
                Some(Action::AskConnError)
            },
            CheckTxEvent::ConnError { failed } => {
                if failed {
                    return None;
                }
                Some(Action::CheckTxAsync { tx: slice_to_vec(tx), set_callback: true })
            },
        }
    }

    /// Takes the transactions of the block at `height` out of the pool. Where recheck is on, those
    /// that stay go to the application again.
    pub fn update(&mut self, height: i64, raw_txs: &[&[u8]]) -> (actions: Vec<Action>)
        requires
            old(self)@.purge_in_range(bytes_of(raw_txs@)),
            !old(self)@.recheck_collides(bytes_of(raw_txs@)),
        ensures
            final(self)@ == old(self)@.updated(height, bytes_of(raw_txs@)),
            effects(actions@) == old(self)@.update_effects(bytes_of(raw_txs@)),
            final(self)@.height == height,
            !final(self)@.notified_txs_available,
    {
        let ghost txs = bytes_of(raw_txs@);
        self.height = height;
        self.notified_txs_available = false;
        let ghost start = self@;

        let mut actions: Vec<Action> = Vec::new();
        let mut i: usize = 0;
        proof {
            lemma_without_no_keys(start.entries);
        }
        assert(txs.take(0) == Seq::<Seq<u8>>::empty());
        while i < raw_txs.len()
            invariant
                0 <= i <= raw_txs.len(),
                txs == bytes_of(raw_txs@),
                start.purge_in_range(txs),
                start.txs_bytes <= i64::MAX,
                self@ == start.purged(txs.take(i as int)),
                effects(actions@) == start.purge_effects(txs.take(i as int)),
            decreases raw_txs.len() - i,
        {
            let raw_tx = raw_txs[i];
            assert(txs.take(i + 1) == txs.take(i as int).push(raw_tx@));
            proof {
                lemma_total_of_prefix(start.entries, txs, i + 1);
                start.lemma_purge_one_more(txs.take(i as int), raw_tx@);
            }
            let mut removal = self.remove_tx(raw_tx);
            actions.append(&mut removal);
            i = i + 1;
        }
        assert(txs.take(i as int) == txs);

        let mut rest = self.settle();
        actions.append(&mut rest);
        actions
    }

    /// Rechecks the transactions of the pool, where there are some, or, where recheck is off,
    /// announces them.
    pub fn settle(&mut self) -> (actions: Vec<Action>)
        requires
            old(self)@.config.recheck && old(self)@.size() > 0 ==> old(self)@.recheck_txs.len()
                == 0,
        ensures
            final(self)@ == old(self)@.settled(),
            effects(actions@) == old(self)@.settle_effects(),
    {
        let mut actions: Vec<Action> = Vec::new();
        if self.size() > 0 {
            if self.config.recheck {
                self.start_recheck(&mut actions);
            } else {
                actions.push(Action::AskTxsAvailableEnabled);
            }
        }
        actions
    }

    /// Puts the transactions of the pool down for recheck, and hands them to the application.
    fn start_recheck(&mut self, actions: &mut Vec<Action>)
        requires
            old(self)@.recheck_txs.len() == 0,
        ensures
            final(self)@ == (MempoolState { recheck_txs: old(self)@.txs(), ..old(self)@ }),
            effects(final(actions)@) == effects(old(actions)@) + old(self)@.recheck_effects(),
    {
        let items = map_iter(&self.txs);
        let mut recheck: Vec<MempoolTx> = Vec::new();
        let mut i: usize = 0;
        let ghost before = actions@;
        let ghost issued = self@.recheck_effects();
        while i < items.len()
            invariant
                0 <= i <= items.len(),
                items@.len() == self@.entries.len(),
                forall|j: int|
                    0 <= j < items@.len() ==> (#[trigger] items@[j]).1@ == self@.entries[j].tx,
                records(recheck@) == self@.txs().take(i as int),
                issued == self@.recheck_effects(),
                effects(actions@) == effects(before) + issued.take(i as int),
            decreases items.len() - i,
        {
            let mem_tx = items[i].1;
            let ghost earlier = actions@;
            let ghost listed = recheck@;
            recheck.push(mem_tx.clone());
            assert(records(recheck@) == records(listed).push(mem_tx@));
            actions.push(Action::CheckTxAsync { tx: mem_tx.tx.clone(), set_callback: false });
            assert(effects(actions@) == effects(earlier).push(issued[i as int]));
            i = i + 1;
        }
        let ghost earlier = actions@;
        actions.push(Action::FlushAsync);
        assert(effects(actions@) == effects(earlier).push(Effect::FlushAsync));
        self.recheck_txs = recheck;
    }

    /// Removes all transactions, and nothing else.
    pub fn flush(&mut self) -> (actions: Vec<Action>)
        ensures
            final(self)@ == old(self)@.flushed(),
            effects(actions@) == seq![Effect::MakeTxsWaitChan],
    {
        self.txs_bytes = 0;
        map_clear(&mut self.txs);

        let mut actions: Vec<Action> = Vec::new();
        actions.push(Action::MakeTxsWaitChan);
        actions
    }

    /// Takes the response of the application to a transaction that `check_tx` handed to it. A
    /// valid transaction that there is room for is added.
    pub fn res_cb_first_time(
        &mut self,
        check_tx_code: u32,
        has_post_check_err: bool,
        raw_tx: &[u8],
        gas_wanted: i64,
        peer_id: u16,
    ) -> (actions: Vec<Action>)
        requires
            old(self)@.first_response_allowed(check_tx_code, has_post_check_err, raw_tx@),
        ensures
            final(self)@ == old(self)@.first_checked(
                check_tx_code,
                has_post_check_err,
                raw_tx@,
                gas_wanted,
                peer_id,
            ),
            effects(actions@) == old(self)@.first_response_effects(
                check_tx_code,
                has_post_check_err,
                raw_tx@,
            ),
            old(self)@.within_limits() ==> final(self)@.within_limits(),
            check_tx_code != 0 || has_post_check_err ==> final(self)@ == old(self)@
                && actions@.len() == 0,
    {
        if check_tx_code != ABCI_CODE_TYPE_OK || has_post_check_err {
            return Vec::new();
        }
        if self.no_room_for(raw_tx.len() as i128) {
            return Vec::new();
        }
        let mem_tx = MempoolTx {
            height: self.height,
            gas_wanted,
            tx: slice_to_vec(raw_tx),
            senders: sent_by(PeerId(peer_id)),
        };

        let mut actions = self.add_tx(mem_tx);
        actions.push(Action::AskTxsAvailableEnabled);
        actions
    }

    /// Takes the response of the application to a transaction that is rechecked. The transactions
    /// left to recheck are gone through from the oldest one up to `raw_tx`.
    pub fn res_cb_recheck(&mut self, check_tx_code: u32, raw_tx: &[u8]) -> (actions: Vec<Action>)
        ensures
            final(self)@ == old(self)@.rechecked(raw_tx@),
            effects(actions@) == old(self)@.recheck_response_effects(check_tx_code, raw_tx@),
            old(self)@.recheck_txs.len() > 0 && old(self)@.recheck_txs[0].tx == raw_tx@ ==> {
                &&& final(self)@.recheck_txs == old(self)@.recheck_txs.skip(1)
                &&& effects(actions@) == seq![
                    Effect::AskPostCheck { check_tx_code, tx: raw_tx@ },
                ]
            },
    {
        let mut actions: Vec<Action> = Vec::new();
        let ghost all = self@.recheck_txs;
        if self.recheck_txs.is_empty() {
            proof {
                lemma_first_match_is_unique(all, raw_tx@);
            }
            return actions;
        }
        let mut i: usize = 0;
        while i < self.recheck_txs.len() && !same_bytes(self.recheck_txs[i].tx.as_slice(), raw_tx)
            invariant
                0 <= i <= self.recheck_txs.len(),
                all == records(self.recheck_txs@),
                forall|k: int| 0 <= k < i ==> (#[trigger] all[k]).tx != raw_tx@,
                effects(actions@) == Seq::new(i as nat, |i: int| Effect::ReportRecheckMismatch),
            decreases self.recheck_txs.len() - i,
        {
            assert(all[i as int].tx != raw_tx@);
            let ghost earlier = actions@;
            // not the one, move on to the next
            actions.push(Action::ReportRecheckMismatch);
            assert(effects(actions@) == effects(earlier).push(Effect::ReportRecheckMismatch));
            i = i + 1;
        }
        proof {
            lemma_first_match_is_unique(all, raw_tx@);
        }
        if i < self.recheck_txs.len() {
            assert(is_first_match(all, raw_tx@, i as int));
            let rest = self.recheck_txs.split_off(i + 1);
            assert(records(rest@) == all.skip(i + 1));
            self.recheck_txs = rest;
        } else {
            self.recheck_txs.clear();
        }
        let ghost earlier = actions@;
        actions.push(Action::AskPostCheck { check_tx_code, tx: slice_to_vec(raw_tx) });
        assert(effects(actions@) == effects(earlier).push(
            Effect::AskPostCheck { check_tx_code, tx: raw_tx@ },
        ));
        actions
    }

    /// Takes the reply to whether the check after validation fails for a transaction that is
    /// rechecked. A transaction that is valid no more is removed.
    pub fn res_cb_post_check(
        &mut self,
        check_tx_code: u32,
        raw_tx: &[u8],
        has_post_check_err: bool,
    ) -> (actions: Vec<Action>)
        requires
            check_tx_code != ABCI_CODE_TYPE_OK || has_post_check_err ==> old(self)@.remove_in_range(
                raw_tx@,
            ),
        ensures
            final(self)@ == old(self)@.post_checked(check_tx_code, raw_tx@, has_post_check_err),
            effects(actions@) == old(self)@.post_check_effects(
                check_tx_code,
                raw_tx@,
                has_post_check_err,
            ),
    {
        let mut actions: Vec<Action> = Vec::new();
        if check_tx_code != ABCI_CODE_TYPE_OK || has_post_check_err {
            actions = self.remove_tx(raw_tx);
        }
        if self.size() > 0 {
            actions.push(Action::AskTxsAvailableEnabled);
        }
        actions
    }

    /// Takes the reply to whether the notification of available transactions is enabled.
    pub fn notify_txs_available(&mut self, enabled: bool) -> (actions: Vec<Action>)
        requires
            old(self)@.size() > 0,
        ensures
            final(self)@ == old(self)@.notified(enabled),
            effects(actions@) == old(self)@.notify_effects(enabled),
    {
        let mut actions: Vec<Action> = Vec::new();
        if enabled && !self.notified_txs_available {
            self.notified_txs_available = true;
            actions.push(Action::NotifyTxsAvailable);
        }
        actions
    }
}

} // verus!
