//! What the node is told.

use vstd::prelude::*;

use crate::action::Effect;
use crate::laws::Step;
use crate::laws::order::{law_order, lemma_filter_in_order, lemma_in_order_len};
use crate::mempool::MempoolConfig;
use crate::model::{
    drains, lemma_without_no_keys, lemma_without_one_more_key, without_keys, ABCI_CODE_TYPE_OK,
    MempoolState,
};
use crate::store::{has_key, Entry};
use crate::tx::sha256;

verus! {

/// Whether whoever needs transactions waits, after some effects.
pub open spec fn waits(waiting: bool, effects: Seq<Effect>) -> bool
    decreases effects.len(),
{
    if effects.len() == 0 {
        waiting
    } else {
        match effects.last() {
            Effect::CloseTxsWaitChan => false,
            Effect::MakeTxsWaitChan => true,
            _ => waits(waiting, effects.drop_last()),
        }
    }
}

/// How many of some effects are notifications of available transactions.
pub open spec fn notifications(effects: Seq<Effect>) -> nat
    decreases effects.len(),
{
    if effects.len() == 0 {
        0
    } else {
        notifications(effects.drop_last()) + if effects.last() == Effect::NotifyTxsAvailable {
            1nat
        } else {
            0
        }
    }
}

proof fn lemma_waits_after_both(waiting: bool, a: Seq<Effect>, b: Seq<Effect>)
    ensures
        waits(waiting, a + b) == waits(waits(waiting, a), b),
    decreases b.len(),
{
    if b.len() == 0 {
        assert(a + b == a);
    } else {
        assert((a + b).drop_last() == a + b.drop_last());
        lemma_waits_after_both(waiting, a, b.drop_last());
    }
}

proof fn lemma_waits_unchanged(waiting: bool, effects: Seq<Effect>)
    requires
        forall|i: int|
            0 <= i < effects.len() ==> (#[trigger] effects[i]) != Effect::CloseTxsWaitChan
                && effects[i] != Effect::MakeTxsWaitChan,
    ensures
        waits(waiting, effects) == waiting,
    decreases effects.len(),
{
    if effects.len() > 0 {
        assert(effects.last() == effects[effects.len() - 1]);
        lemma_waits_unchanged(waiting, effects.drop_last());
    }
}

/// While some transaction stays, no removal has left the pool empty.
pub(crate) proof fn lemma_no_drain(s: Seq<Entry>, txs: Seq<Seq<u8>>)
    requires
        without_keys(s, txs).len() > 0,
    ensures
        drains(s, txs) == 0,
    decreases txs.len(),
{
    if txs.len() > 0 {
        let some = txs.drop_last();
        assert(some.push(txs.last()) == txs);
        lemma_without_one_more_key(s, some, txs.last());
        lemma_filter_in_order(without_keys(s, some), |e: Entry| e.key != sha256(txs.last()));
        lemma_in_order_len(without_keys(s, txs), without_keys(s, some));
        lemma_no_drain(s, some);
    }
}

/// Whoever needs transactions waits exactly while the pool is empty: if it is so before a step, it
/// is so after it.
pub proof fn law_step_keeps_waiting(pool: MempoolState, step: Step, waiting: bool)
    requires
        waiting <==> pool.size() == 0,
    ensures
        waits(waiting, pool.emits(step)) <==> pool.after(step).size() == 0,
{
    law_order(pool, step);
    lemma_in_order_len(pool.after(step).entries, pool.entries);
    let emitted = pool.emits(step);
    match step {
        Step::Add { record } => {
            if pool.size() == 0 {
                assert(emitted.last() == Effect::CloseTxsWaitChan);
            }
        },
        Step::FirstResponse { code, has_post_check_err, tx, gas_wanted, peer_id } => {
            if pool.takes_in(code, has_post_check_err, tx) {
                let asked = seq![Effect::AskTxsAvailableEnabled];
                assert(emitted == pool.add_effects() + asked);
                lemma_waits_after_both(waiting, pool.add_effects(), asked);
                lemma_waits_unchanged(waits(waiting, pool.add_effects()), asked);
                if pool.size() == 0 {
                    assert(pool.add_effects().last() == Effect::CloseTxsWaitChan);
                }
            }
        },
        Step::Remove { tx } => {
            lemma_waits_after_removal(pool, tx, waiting);
        },
        Step::RemoveByKey { key } => {
            if has_key(pool.entries, key) {
                lemma_waits_after_removal(pool, pool.tx_at(key), waiting);
            }
        },
        Step::PostCheck { code, tx, has_post_check_err } => {
            let removal = if code == ABCI_CODE_TYPE_OK && !has_post_check_err {
                Seq::<Effect>::empty()
            } else {
                pool.remove_effects(tx)
            };
            lemma_waits_after_removal(pool, tx, waiting);
            if pool.after(step).size() > 0 {
                let asked = seq![Effect::AskTxsAvailableEnabled];
                assert(emitted == removal + asked);
                lemma_waits_after_both(waiting, removal, asked);
                lemma_waits_unchanged(waits(waiting, removal), asked);
            }
        },
        Step::Update { height, txs } => {
            let rest = pool.purged(txs);
            let made = pool.purge_effects(txs);
            if rest.size() > 0 {
                lemma_no_drain(pool.entries, txs);
                lemma_waits_unchanged(waiting, emitted);
            } else if txs.len() > 0 {
                assert(made.last() == Effect::MakeTxsWaitChan);
            } else {
                assert(txs == Seq::<Seq<u8>>::empty());
                lemma_without_no_keys(pool.entries);
                assert(made == Seq::<Effect>::empty());
            }
        },
        Step::Flush => {
            assert(emitted.last() == Effect::MakeTxsWaitChan);
        },
        Step::RecheckResponse { code, tx } => {
            lemma_waits_unchanged(waiting, emitted);
        },
        Step::Notify { enabled } => {
            lemma_waits_unchanged(waiting, emitted);
        },
    }
}

proof fn lemma_waits_after_removal(pool: MempoolState, tx: Seq<u8>, waiting: bool)
    requires
        waiting <==> pool.size() == 0,
    ensures
        waits(waiting, pool.remove_effects(tx)) <==> pool.removed(tx).size() == 0,
{
    lemma_filter_in_order(pool.entries, |e: Entry| e.key != sha256(tx));
    lemma_in_order_len(pool.removed(tx).entries, pool.entries);
    if pool.removed(tx).size() == 0 {
        assert(pool.remove_effects(tx).last() == Effect::MakeTxsWaitChan);
    }
}

/// A pool starts empty, with whoever needs transactions waiting. In every state they wait exactly
/// while the pool is empty.
pub proof fn law_waiting(config: MempoolConfig, height: i64, steps: Seq<Step>)
    ensures
        ({
            let start = MempoolState::fresh(config, height);
            waits(true, start.trace(steps)) <==> start.run(steps).size() == 0
        }),
    decreases steps.len(),
{
    let start = MempoolState::fresh(config, height);
    if steps.len() > 0 {
        let before = steps.drop_last();
        law_waiting(config, height, before);
        let emitted = start.run(before).emits(steps.last());
        lemma_waits_after_both(true, start.trace(before), emitted);
        law_step_keeps_waiting(start.run(before), steps.last(), waits(true, start.trace(before)));
    }
}

proof fn lemma_notifications_of_both(a: Seq<Effect>, b: Seq<Effect>)
    ensures
        notifications(a + b) == notifications(a) + notifications(b),
    decreases b.len(),
{
    if b.len() == 0 {
        assert(a + b == a);
    } else {
        assert((a + b).drop_last() == a + b.drop_last());
        lemma_notifications_of_both(a, b.drop_last());
    }
}

proof fn lemma_no_notification(effects: Seq<Effect>)
    requires
        forall|i: int|
            0 <= i < effects.len() ==> #[trigger] effects[i] != Effect::NotifyTxsAvailable,
    ensures
        notifications(effects) == 0,
    decreases effects.len(),
{
    if effects.len() > 0 {
        assert(effects.last() == effects[effects.len() - 1]);
        lemma_no_notification(effects.drop_last());
    }
}

/// From one update to the next there is at most one notification of available transactions, and
/// none where one has been given already. The flag tells whether there has been one.
pub proof fn law_one_notification(pool: MempoolState, steps: Seq<Step>)
    requires
        forall|i: int| 0 <= i < steps.len() ==> !(#[trigger] steps[i] is Update),
    ensures
        notifications(pool.trace(steps)) <= 1,
        pool.notified_txs_available ==> notifications(pool.trace(steps)) == 0,
        pool.run(steps).notified_txs_available <==> pool.notified_txs_available || notifications(
            pool.trace(steps),
        ) == 1,
    decreases steps.len(),
{
    if steps.len() > 0 {
        let before = steps.drop_last();
        law_one_notification(pool, before);
        let now = pool.run(before);
        let step = steps.last();
        let emitted = now.emits(step);
        assert(!(steps[steps.len() - 1] is Update));
        lemma_notifications_of_both(pool.trace(before), emitted);
        if step is Notify && emitted.len() > 0 {
            assert(emitted.drop_last() == Seq::<Effect>::empty());
            assert(emitted.last() == Effect::NotifyTxsAvailable);
            assert(notifications(emitted.drop_last()) == 0);
            assert(notifications(emitted) == 1);
        } else {
            lemma_no_notification(emitted);
        }
    }
}

/// An update gives no notification, and clears the flag.
pub proof fn law_update_clears_the_flag(pool: MempoolState, height: i64, txs: Seq<Seq<u8>>)
    ensures
        !pool.updated(height, txs).notified_txs_available,
        notifications(pool.update_effects(txs)) == 0,
{
    lemma_no_notification(pool.update_effects(txs));
}

/// Whether to notify is asked only where there is something to announce, and last.
pub proof fn law_asked_of_a_pool_that_is_not_empty(pool: MempoolState, step: Step, i: int)
    requires
        0 <= i < pool.emits(step).len(),
        pool.emits(step)[i] == Effect::AskTxsAvailableEnabled,
    ensures
        pool.after(step).size() > 0,
        i == pool.emits(step).len() - 1,
{
    if let Step::FirstResponse { code, has_post_check_err, tx, gas_wanted, peer_id } = step {
        assert(pool.size() > 0 || pool.after(step).size() == 1);
    }
}

/// A transaction that comes in is announced, if the notification is enabled and there has been
/// none since the last update.
pub proof fn law_new_transaction_is_announced(
    pool: MempoolState,
    code: u32,
    has_post_check_err: bool,
    tx: Seq<u8>,
    gas_wanted: i64,
    peer_id: u16,
    enabled: bool,
)
    requires
        pool.takes_in(code, has_post_check_err, tx),
    ensures
        ({
            let step = Step::FirstResponse { code, has_post_check_err, tx, gas_wanted, peer_id };
            let next = pool.after(step);
            &&& next.has_tx(tx)
            &&& pool.emits(step).last() == Effect::AskTxsAvailableEnabled
            &&& next.notify_effects(enabled) == if enabled && !pool.notified_txs_available {
                seq![Effect::NotifyTxsAvailable]
            } else {
                Seq::empty()
            }
        }),
{
    let s = pool.added(pool.received(tx, gas_wanted, peer_id)).entries;
    if !pool.has_tx(tx) {
        assert(s[s.len() - 1].key == sha256(tx));
    }
}

/// A notification is given exactly where it is enabled and none has been given since the last
/// update. Then the flag is set; nothing else of the pool changes.
pub proof fn law_notification(pool: MempoolState, enabled: bool)
    ensures
        ({
            let next = pool.notified(enabled);
            let emitted = pool.notify_effects(enabled);
            &&& enabled && !pool.notified_txs_available ==> {
                &&& emitted == seq![Effect::NotifyTxsAvailable]
                &&& next.notified_txs_available
            }
            &&& !enabled || pool.notified_txs_available ==> emitted.len() == 0 && next == pool
            &&& next.config == pool.config
            &&& next.height == pool.height
            &&& next.entries == pool.entries
            &&& next.txs_bytes == pool.txs_bytes
            &&& next.recheck_txs == pool.recheck_txs
        }),
{
}

} // verus!
