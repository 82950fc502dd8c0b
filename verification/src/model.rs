//! The pool as a mathematical value, and what each operation makes of it.

use vstd::prelude::*;

use crate::action::Effect;
use crate::mempool::{CheckTxEvent, MempoolConfig};
use crate::store::{has_key, key_once, lemma_without_key, tx_under, without_key, Entry};
use crate::tx::{sha256, TxRecord};

verus! {

/// The response code of the application for a valid transaction.
pub const ABCI_CODE_TYPE_OK: u32 = 0;

/// Whether `n` is a value of `i64`.
pub open spec fn fits_i64(n: int) -> bool {
    i64::MIN <= n <= i64::MAX
}

/// The total length of the transactions in some entries.
pub open spec fn total_bytes(s: Seq<Entry>) -> int
    decreases s.len(),
{
    if s.len() == 0 {
        0
    } else {
        total_bytes(s.drop_last()) + s.last().tx.tx.len()
    }
}

/// Whether `key` is the key of one of `txs`.
pub open spec fn keyed_by(key: Seq<u8>, txs: Seq<Seq<u8>>) -> bool {
    exists|i: int| 0 <= i < txs.len() && key == sha256(#[trigger] txs[i])
}

/// The entries whose key is not that of one of `txs`, in their order.
pub open spec fn without_keys(s: Seq<Entry>, txs: Seq<Seq<u8>>) -> Seq<Entry> {
    s.filter(|e: Entry| !keyed_by(e.key, txs))
}

/// How many removals leave no entry when all of `txs` are removed in turn.
pub open spec fn drains(s: Seq<Entry>, txs: Seq<Seq<u8>>) -> nat
    decreases txs.len(),
{
    if txs.len() == 0 {
        0
    } else if without_keys(s, txs).len() == 0 {
        drains(s, txs.drop_last()) + 1
    } else {
        drains(s, txs.drop_last())
    }
}

/// Whether `j` is the first position in `s` that holds the transaction `tx`.
pub open spec fn is_first_match(s: Seq<TxRecord>, tx: Seq<u8>, j: int) -> bool {
    &&& 0 <= j < s.len()
    &&& s[j].tx == tx
    &&& forall|k: int| 0 <= k < j ==> (#[trigger] s[k]).tx != tx
}

/// How many of `s` stand before the first position that holds `tx`; all where none does.
pub open spec fn skipped(s: Seq<TxRecord>, tx: Seq<u8>) -> nat {
    if exists|j: int| is_first_match(s, tx, j) {
        (choose|j: int| is_first_match(s, tx, j)) as nat
    } else {
        s.len()
    }
}

/// What stands behind the first position in `s` that holds `tx`; nothing where none does.
pub open spec fn behind_first_match(s: Seq<TxRecord>, tx: Seq<u8>) -> Seq<TxRecord> {
    if exists|j: int| is_first_match(s, tx, j) {
        s.skip(skipped(s, tx) as int + 1)
    } else {
        Seq::empty()
    }
}

/// There is at most one first position.
pub proof fn lemma_first_match_is_unique(s: Seq<TxRecord>, tx: Seq<u8>)
    ensures
        forall|j: int| #[trigger]
            is_first_match(s, tx, j) ==> skipped(s, tx) == j && behind_first_match(s, tx)
                == s.skip(j + 1),
        (forall|k: int| 0 <= k < s.len() ==> (#[trigger] s[k]).tx != tx) ==> skipped(s, tx)
            == s.len() && behind_first_match(s, tx).len() == 0,
{
    assert forall|j: int| #[trigger] is_first_match(s, tx, j) implies skipped(s, tx) == j by {
        let k = choose|k: int| is_first_match(s, tx, k);
        assert(is_first_match(s, tx, k));
        assert(!(j < k)) by {
            if j < k {
                assert(s[j].tx != tx);
            }
        }
        assert(!(k < j)) by {
            if k < j {
                assert(s[k].tx != tx);
            }
        }
    }
    if exists|j: int| is_first_match(s, tx, j) {
        let j = choose|j: int| is_first_match(s, tx, j);
        assert(s[j].tx == tx);
    }
}

/// Leaving out the keys of no transactions changes nothing.
pub proof fn lemma_without_no_keys(s: Seq<Entry>)
    ensures
        without_keys(s, Seq::empty()) == s,
    decreases s.len(),
{
    reveal(Seq::filter);
    if s.len() > 0 {
        lemma_without_no_keys(s.drop_last());
        assert(!keyed_by(s.last().key, Seq::empty()));
    }
}

/// Leaving out the keys of some transactions, then the key of one more, leaves them all out.
pub proof fn lemma_without_one_more_key(s: Seq<Entry>, txs: Seq<Seq<u8>>, tx: Seq<u8>)
    ensures
        without_key(without_keys(s, txs), sha256(tx)) == without_keys(s, txs.push(tx)),
    decreases s.len(),
{
    reveal(Seq::filter);
    if s.len() > 0 {
        let e = s.last();
        let more = txs.push(tx);
        lemma_without_one_more_key(s.drop_last(), txs, tx);
        assert(keyed_by(e.key, more) <==> keyed_by(e.key, txs) || e.key == sha256(tx)) by {
            if keyed_by(e.key, txs) {
                let i = choose|i: int| 0 <= i < txs.len() && e.key == sha256(#[trigger] txs[i]);
                assert(e.key == sha256(more[i]));
            }
            if e.key == sha256(tx) {
                assert(e.key == sha256(more[txs.len() as int]));
            }
            if keyed_by(e.key, more) {
                let i = choose|i: int| 0 <= i < more.len() && e.key == sha256(#[trigger] more[i]);
                if i < txs.len() {
                    assert(e.key == sha256(txs[i]));
                }
            }
        }
        let kept = without_keys(s.drop_last(), txs);
        if !keyed_by(e.key, txs) {
            assert(without_keys(s, txs) == kept.push(e));
            assert(kept.push(e).drop_last() == kept);
        }
    }
}

/// No entry is left exactly where each one has the key of one of the transactions.
pub proof fn lemma_no_entry_left(s: Seq<Entry>, txs: Seq<Seq<u8>>)
    ensures
        without_keys(s, txs).len() == 0 <==> (forall|i: int|
            0 <= i < s.len() ==> keyed_by((#[trigger] s[i]).key, txs)),
    decreases s.len(),
{
    reveal(Seq::filter);
    if s.len() > 0 {
        lemma_no_entry_left(s.drop_last(), txs);
        assert(s.last() == s[s.len() - 1]);
        assert forall|i: int| 0 <= i < s.len() - 1 implies s.drop_last()[i] == #[trigger] s[i] by {}
        if without_keys(s, txs).len() == 0 {
            assert forall|i: int| 0 <= i < s.len() implies keyed_by((#[trigger] s[i]).key, txs) by {
                if i < s.len() - 1 {
                    assert(keyed_by(s.drop_last()[i].key, txs));
                }
            }
        }
    }
}

/// An entry that is appended adds the length of its transaction.
pub proof fn lemma_total_of_push(s: Seq<Entry>, e: Entry)
    ensures
        total_bytes(s.push(e)) == total_bytes(s) + e.tx.tx.len(),
{
    assert(s.push(e).drop_last() == s);
}

/// The entries that stay are not longer than all of them.
pub proof fn lemma_total_of_filter(s: Seq<Entry>, stays: spec_fn(Entry) -> bool)
    ensures
        0 <= total_bytes(s.filter(stays)) <= total_bytes(s),
    decreases s.len(),
{
    reveal(Seq::filter);
    if s.len() > 0 {
        lemma_total_of_filter(s.drop_last(), stays);
        lemma_total_of_push(s.drop_last().filter(stays), s.last());
    }
}

/// What leaves with a key that only one entry has is the transaction under it.
pub proof fn lemma_total_without_key(s: Seq<Entry>, key: Seq<u8>)
    requires
        key_once(s, key),
    ensures
        has_key(s, key) ==> total_bytes(s) - total_bytes(without_key(s, key)) == tx_under(
            s,
            key,
        ).tx.len(),
        !has_key(s, key) ==> without_key(s, key) == s,
    decreases s.len(),
{
    reveal(Seq::filter);
    lemma_without_key(s, key);
    if has_key(s, key) {
        let t = s.drop_last();
        let e = s.last();
        assert(t.push(e) == s);
        assert(key_once(t, key)) by {
            assert forall|i: int, j: int| 0 <= i < j < t.len() implies (#[trigger] t[i]).key != key
                || (#[trigger] t[j]).key != key by {
                assert(s[i].key != key || s[j].key != key);
            }
        }
        lemma_total_without_key(t, key);
        let i = choose|i: int| 0 <= i < s.len() && (#[trigger] s[i]).key == key;
        if e.key == key {
            assert(s[s.len() - 1] == e);
            assert(!has_key(t, key)) by {
                if has_key(t, key) {
                    let k = choose|k: int| 0 <= k < t.len() && (#[trigger] t[k]).key == key;
                    assert(s[k].key != key || s[s.len() - 1].key != key);
                }
            }
            assert(i == s.len() - 1);
        } else {
            assert(i < t.len());
            assert(t[i].key == key);
            let k = choose|k: int| 0 <= k < t.len() && (#[trigger] t[k]).key == key;
            assert(s[k].key == key);
            assert(i == k);
            lemma_total_of_push(without_key(t, key), e);
        }
    }
}

/// What leaves with some of the transactions is not longer than what leaves with all of them.
pub proof fn lemma_total_of_prefix(s: Seq<Entry>, txs: Seq<Seq<u8>>, n: int)
    requires
        0 <= n <= txs.len(),
    ensures
        total_bytes(without_keys(s, txs)) <= total_bytes(without_keys(s, txs.take(n)))
            <= total_bytes(s),
    decreases txs.len() - n,
{
    lemma_total_of_filter(s, |e: Entry| !keyed_by(e.key, txs.take(n)));
    if n < txs.len() {
        lemma_total_of_prefix(s, txs, n + 1);
        assert(txs.take(n + 1) == txs.take(n).push(txs[n]));
        lemma_without_one_more_key(s, txs.take(n), txs[n]);
        let key = sha256(txs[n]);
        lemma_total_of_filter(without_keys(s, txs.take(n)), |e: Entry| e.key != key);
    } else {
        assert(txs.take(n) == txs);
    }
}

/// One more entry leaves with the transactions where its key is that of one of them.
pub proof fn lemma_leaving_more(s: Seq<Entry>, txs: Seq<Seq<u8>>, n: int)
    requires
        0 <= n < s.len(),
    ensures
        total_bytes(s.take(n + 1)) - total_bytes(without_keys(s.take(n + 1), txs)) == total_bytes(
            s.take(n),
        ) - total_bytes(without_keys(s.take(n), txs)) + if keyed_by(s[n].key, txs) {
            s[n].tx.tx.len() as int
        } else {
            0
        },
{
    reveal(Seq::filter);
    assert(s.take(n + 1).drop_last() == s.take(n));
    lemma_total_of_push(without_keys(s.take(n), txs), s[n]);
}

/// What leaves of the first entries is not longer than what leaves of all of them.
pub proof fn lemma_leaving_rest(s: Seq<Entry>, txs: Seq<Seq<u8>>, n: int)
    requires
        0 <= n <= s.len(),
    ensures
        total_bytes(s.take(n)) - total_bytes(without_keys(s.take(n), txs)) <= total_bytes(s)
            - total_bytes(without_keys(s, txs)),
    decreases s.len() - n,
{
    if n < s.len() {
        lemma_leaving_more(s, txs, n);
        lemma_leaving_rest(s, txs, n + 1);
    } else {
        assert(s.take(n) == s);
    }
}

/// The state of a pool.
#[verifier::ext_equal]
pub struct MempoolState {
    pub config: MempoolConfig,
    pub height: i64,
    /// The transactions with their keys, the oldest first.
    pub entries: Seq<Entry>,
    /// The count of the bytes of the transactions.
    pub txs_bytes: int,
    pub notified_txs_available: bool,
    pub recheck_txs: Seq<TxRecord>,
}

impl MempoolState {
    /// A pool as it is made.
    pub open spec fn fresh(config: MempoolConfig, height: i64) -> Self {
        MempoolState {
            config,
            height,
            entries: Seq::empty(),
            txs_bytes: 0,
            notified_txs_available: false,
            recheck_txs: Seq::empty(),
        }
    }

    /// The number of transactions.
    pub open spec fn size(self) -> nat {
        self.entries.len()
    }

    /// The transactions, the oldest first.
    pub open spec fn txs(self) -> Seq<TxRecord> {
        self.entries.map_values(|e: Entry| e.tx)
    }

    /// The raw transactions, the oldest first.
    pub open spec fn raw_txs(self) -> Seq<Seq<u8>> {
        self.txs().map_values(|tx: TxRecord| tx.tx)
    }

    /// Whether the pool has a transaction under the key of `tx`.
    pub open spec fn has_tx(self, tx: Seq<u8>) -> bool {
        has_key(self.entries, sha256(tx))
    }

    /// Whether there is no room for a transaction of `tx_size` bytes.
    pub open spec fn full(self, tx_size: int) -> bool {
        ||| self.size() >= self.config.size
        ||| self.txs_bytes + tx_size > self.config.max_txs_bytes
    }

    /// Whether the sum that `full` looks at, where it looks at it, is in range.
    pub open spec fn full_in_range(self, tx_size: int) -> bool {
        self.size() < self.config.size ==> fits_i64(self.txs_bytes + tx_size)
    }

    /// Whether neither the number of transactions nor the byte count is over its limit.
    pub open spec fn within_limits(self) -> bool {
        &&& self.size() <= self.config.size
        &&& self.txs_bytes <= self.config.max_txs_bytes
    }

    /// Whether the byte count stays in range when `tx` is added.
    pub open spec fn add_in_range(self, tx: Seq<u8>) -> bool {
        self.add_under_in_range(sha256(tx), tx)
    }

    /// Whether the byte count stays in range when `tx` is added under `key`.
    pub open spec fn add_under_in_range(self, key: Seq<u8>, tx: Seq<u8>) -> bool {
        !has_key(self.entries, key) ==> fits_i64(self.txs_bytes + tx.len())
    }

    /// A transaction is appended under its key, unless there is one under that key.
    pub open spec fn added(self, tx: TxRecord) -> Self {
        self.added_under(sha256(tx.tx), tx)
    }

    /// A transaction is appended under `key`, unless there is one under that key.
    pub open spec fn added_under(self, key: Seq<u8>, tx: TxRecord) -> Self {
        if has_key(self.entries, key) {
            self
        } else {
            MempoolState {
                entries: self.entries.push(Entry { key, tx }),
                txs_bytes: self.txs_bytes + tx.tx.len(),
                ..self
            }
        }
    }

    /// The first transaction ends the waiting.
    pub open spec fn add_effects(self) -> Seq<Effect> {
        if self.size() == 0 {
            seq![Effect::CloseTxsWaitChan]
        } else {
            Seq::empty()
        }
    }

    /// Whether the byte count stays in range when the transaction under the key of `tx`, where
    /// there is one, is removed.
    pub open spec fn remove_in_range(self, tx: Seq<u8>) -> bool {
        self.remove_under_in_range(sha256(tx))
    }

    /// Whether the byte count stays in range when the transaction under `key`, where there is one,
    /// is removed.
    pub open spec fn remove_under_in_range(self, key: Seq<u8>) -> bool {
        fits_i64(self.removed_under(key).txs_bytes)
    }

    /// The transaction under the key of `tx` is gone.
    pub open spec fn removed(self, tx: Seq<u8>) -> Self {
        self.removed_under(sha256(tx))
    }

    /// The transaction under `key` is gone, and the byte count is less by the size of what left.
    pub open spec fn removed_under(self, key: Seq<u8>) -> Self {
        self.reduced(without_key(self.entries, key))
    }

    /// Only `rest` is left of the transactions, and the byte count is less by the size of what
    /// left.
    pub open spec fn reduced(self, rest: Seq<Entry>) -> Self {
        MempoolState {
            entries: rest,
            txs_bytes: self.txs_bytes - (total_bytes(self.entries) - total_bytes(rest)),
            ..self
        }
    }

    /// A removal that leaves the pool empty starts the waiting.
    pub open spec fn remove_effects(self, tx: Seq<u8>) -> Seq<Effect> {
        self.remove_under_effects(sha256(tx))
    }

    /// A removal of what is under `key` that leaves the pool empty starts the waiting.
    pub open spec fn remove_under_effects(self, key: Seq<u8>) -> Seq<Effect> {
        if without_key(self.entries, key).len() == 0 {
            seq![Effect::MakeTxsWaitChan]
        } else {
            Seq::empty()
        }
    }

    /// The transaction that is under `key`.
    pub open spec fn tx_at(self, key: Seq<u8>) -> Seq<u8> {
        tx_under(self.entries, key).tx
    }

    /// Whether the byte count stays in range when the transaction under `key`, where there is one,
    /// is removed.
    pub open spec fn remove_by_key_in_range(self, key: Seq<u8>) -> bool {
        has_key(self.entries, key) ==> self.remove_in_range(self.tx_at(key))
    }

    /// All of `txs` are removed.
    pub open spec fn purged(self, txs: Seq<Seq<u8>>) -> Self {
        self.reduced(without_keys(self.entries, txs))
    }

    /// Removing one more transaction.
    pub proof fn lemma_purge_one_more(self, txs: Seq<Seq<u8>>, tx: Seq<u8>)
        ensures
            self.purged(txs.push(tx)) == self.purged(txs).removed(tx),
            self.purge_effects(txs.push(tx)) == self.purge_effects(txs) + self.purged(
                txs,
            ).remove_effects(tx),
    {
        lemma_without_one_more_key(self.entries, txs, tx);
        assert(txs.push(tx).drop_last() == txs);
    }

    /// Each removal that leaves the pool empty starts the waiting.
    pub open spec fn purge_effects(self, txs: Seq<Seq<u8>>) -> Seq<Effect> {
        Seq::new(drains(self.entries, txs), |i: int| Effect::MakeTxsWaitChan)
    }

    /// Whether the byte count stays in range when all of `txs` are removed.
    pub open spec fn purge_in_range(self, txs: Seq<Seq<u8>>) -> bool {
        fits_i64(self.purged(txs).txs_bytes)
    }

    /// Whether an update with `txs` is to start a recheck while one is under way.
    pub open spec fn recheck_collides(self, txs: Seq<Seq<u8>>) -> bool {
        self.config.recheck && self.recheck_txs.len() > 0 && self.purged(txs).size() > 0
    }

    /// The block at `height` commits `txs`: they leave the pool, and where recheck is on, all that
    /// stay are to be rechecked.
    pub open spec fn updated(self, height: i64, txs: Seq<Seq<u8>>) -> Self {
        MempoolState { height, notified_txs_available: false, ..self.purged(txs) }.settled()
    }

    /// Where recheck is on, all transactions are to be rechecked.
    pub open spec fn settled(self) -> Self {
        if self.config.recheck && self.size() > 0 {
            MempoolState { recheck_txs: self.txs(), ..self }
        } else {
            self
        }
    }

    /// The transactions, where there are some, are rechecked, or, where recheck is off, announced.
    pub open spec fn settle_effects(self) -> Seq<Effect> {
        if self.size() == 0 {
            Seq::empty()
        } else if self.config.recheck {
            self.recheck_effects()
        } else {
            seq![Effect::AskTxsAvailableEnabled]
        }
    }

    /// The transactions go to the application again, in their order.
    pub open spec fn recheck_effects(self) -> Seq<Effect> {
        self.txs().map_values(
            |tx: TxRecord| Effect::CheckTxAsync { tx: tx.tx, set_callback: false },
        ).push(Effect::FlushAsync)
    }

    /// The removals come first. The transactions that stay are rechecked or announced.
    pub open spec fn update_effects(self, txs: Seq<Seq<u8>>) -> Seq<Effect> {
        self.purge_effects(txs) + self.purged(txs).settle_effects()
    }

    /// No transaction is left, and the byte count is zero.
    pub open spec fn flushed(self) -> Self {
        MempoolState { entries: Seq::empty(), txs_bytes: 0, ..self }
    }

    /// Whether a first response takes its transaction in.
    pub open spec fn takes_in(self, code: u32, has_post_check_err: bool, tx: Seq<u8>) -> bool {
        &&& code == ABCI_CODE_TYPE_OK
        &&& !has_post_check_err
        &&& !self.full(tx.len() as int)
    }

    /// The transaction of a first response, as it is stored.
    pub open spec fn received(self, tx: Seq<u8>, gas_wanted: i64, peer_id: u16) -> TxRecord {
        TxRecord {
            height: self.height,
            gas_wanted,
            tx,
            senders: Map::empty().insert(peer_id, true),
        }
    }

    /// Whether a first response comes while no recheck is under way, and, where it depends on the
    /// room in the pool, the sum that decides is in range.
    pub open spec fn first_response_allowed(
        self,
        code: u32,
        has_post_check_err: bool,
        tx: Seq<u8>,
    ) -> bool {
        &&& self.recheck_txs.len() == 0
        &&& (code == ABCI_CODE_TYPE_OK && !has_post_check_err ==> self.full_in_range(
            tx.len() as int,
        ))
    }

    /// A valid transaction that there is room for is added, as sent by one peer.
    pub open spec fn first_checked(
        self,
        code: u32,
        has_post_check_err: bool,
        tx: Seq<u8>,
        gas_wanted: i64,
        peer_id: u16,
    ) -> Self {
        if self.takes_in(code, has_post_check_err, tx) {
            self.added(self.received(tx, gas_wanted, peer_id))
        } else {
            self
        }
    }

    /// The effects of the addition, where there is one; then the pool is announced.
    pub open spec fn first_response_effects(
        self,
        code: u32,
        has_post_check_err: bool,
        tx: Seq<u8>,
    ) -> Seq<Effect> {
        if self.takes_in(code, has_post_check_err, tx) {
            self.add_effects().push(Effect::AskTxsAvailableEnabled)
        } else {
            Seq::empty()
        }
    }

    /// The flag after the reply to whether the notification is enabled.
    pub open spec fn notified(self, enabled: bool) -> Self {
        MempoolState {
            notified_txs_available: self.notified_txs_available || enabled,
            ..self
        }
    }

    /// One notification until the flag is cleared.
    pub open spec fn notify_effects(self, enabled: bool) -> Seq<Effect> {
        if enabled && !self.notified_txs_available {
            seq![Effect::NotifyTxsAvailable]
        } else {
            Seq::empty()
        }
    }

    /// A recheck response for `tx` arrives: what was to be rechecked up to `tx` is no more.
    pub open spec fn rechecked(self, tx: Seq<u8>) -> Self {
        MempoolState { recheck_txs: behind_first_match(self.recheck_txs, tx), ..self }
    }

    /// Nothing where no recheck is under way; else a report for each transaction that is skipped,
    /// and the question of the check after validation.
    pub open spec fn recheck_response_effects(self, code: u32, tx: Seq<u8>) -> Seq<Effect> {
        if self.recheck_txs.len() == 0 {
            Seq::empty()
        } else {
            Seq::new(
                skipped(self.recheck_txs, tx),
                |i: int| Effect::ReportRecheckMismatch,
            ).push(Effect::AskPostCheck { check_tx_code: code, tx })
        }
    }

    /// A transaction stays where both the application and the check after validation accept it.
    pub open spec fn post_checked(self, code: u32, tx: Seq<u8>, has_post_check_err: bool) -> Self {
        if code == ABCI_CODE_TYPE_OK && !has_post_check_err {
            self
        } else {
            self.removed(tx)
        }
    }

    /// The effects of the removal, where there is one; then, where the pool is not empty, its
    /// transactions are announced.
    pub open spec fn post_check_effects(
        self,
        code: u32,
        tx: Seq<u8>,
        has_post_check_err: bool,
    ) -> Seq<Effect> {
        let rest = self.post_checked(code, tx, has_post_check_err);
        let removal = if code == ABCI_CODE_TYPE_OK && !has_post_check_err {
            Seq::empty()
        } else {
            self.remove_effects(tx)
        };
        if rest.size() > 0 {
            removal.push(Effect::AskTxsAvailableEnabled)
        } else {
            removal
        }
    }

    /// What a transaction that is to be validated meets next; `None` where it is refused.
    pub open spec fn check_effect(self, tx: Seq<u8>, event: CheckTxEvent) -> Option<Effect> {
        match event {
            CheckTxEvent::Received => if self.full(tx.len() as int) || tx.len()
                > self.config.max_tx_bytes {
                None
            } else {
                Some(Effect::AskPreCheck)
            },
            CheckTxEvent::PreCheck { failed } => if failed {
                None
            } else {
                Some(Effect::AskConnError)
            },
            CheckTxEvent::ConnError { failed } => if failed {
                None
            } else {
                Some(Effect::CheckTxAsync { tx, set_callback: true })
            },
        }
    }
}

} // verus!
