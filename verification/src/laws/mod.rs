//! What holds of the pool as a whole.

pub mod adding;
pub mod check;
pub mod count;
pub mod keys;
pub mod limits;
pub mod node;
pub mod order;
pub mod reaping;
pub mod recheck;
pub mod removing;
pub mod room;
pub mod updating;
pub mod views;

use vstd::prelude::*;

use crate::action::Effect;
use crate::model::MempoolState;
use crate::store::has_key;
use crate::tx::TxRecord;

verus! {

/// One thing that happens to a pool.
pub enum Step {
    Add { record: TxRecord },
    Remove { tx: Seq<u8> },
    RemoveByKey { key: Seq<u8> },
    Update { height: i64, txs: Seq<Seq<u8>> },
    Flush,
    FirstResponse {
        code: u32,
        has_post_check_err: bool,
        tx: Seq<u8>,
        gas_wanted: i64,
        peer_id: u16,
    },
    RecheckResponse { code: u32, tx: Seq<u8> },
    PostCheck { code: u32, tx: Seq<u8>, has_post_check_err: bool },
    Notify { enabled: bool },
}

impl MempoolState {
    /// The pool after a step.
    pub open spec fn after(self, step: Step) -> Self {
        match step {
            Step::Add { record } => self.added(record),
            Step::Remove { tx } => self.removed(tx),
            Step::RemoveByKey { key } => if has_key(self.entries, key) {
                self.removed(self.tx_at(key))
            } else {
                self
            },
            Step::Update { height, txs } => self.updated(height, txs),
            Step::Flush => self.flushed(),
            Step::FirstResponse { code, has_post_check_err, tx, gas_wanted, peer_id } =>
                self.first_checked(code, has_post_check_err, tx, gas_wanted, peer_id),
            Step::RecheckResponse { code, tx } => self.rechecked(tx),
            Step::PostCheck { code, tx, has_post_check_err } => self.post_checked(
                code,
                tx,
                has_post_check_err,
            ),
            Step::Notify { enabled } => self.notified(enabled),
        }
    }

    /// The effects of a step.
    pub open spec fn emits(self, step: Step) -> Seq<Effect> {
        match step {
            Step::Add { record } => self.add_effects(),
            Step::Remove { tx } => self.remove_effects(tx),
            Step::RemoveByKey { key } => if has_key(self.entries, key) {
                self.remove_effects(self.tx_at(key))
            } else {
                Seq::empty()
            },
            Step::Update { height, txs } => self.update_effects(txs),
            Step::Flush => seq![Effect::MakeTxsWaitChan],
            Step::FirstResponse { code, has_post_check_err, tx, gas_wanted, peer_id } =>
                self.first_response_effects(code, has_post_check_err, tx),
            Step::RecheckResponse { code, tx } => self.recheck_response_effects(code, tx),
            Step::PostCheck { code, tx, has_post_check_err } => self.post_check_effects(
                code,
                tx,
                has_post_check_err,
            ),
            Step::Notify { enabled } => self.notify_effects(enabled),
        }
    }

    /// The pool after some steps.
    pub open spec fn run(self, steps: Seq<Step>) -> Self
        decreases steps.len(),
    {
        if steps.len() == 0 {
            self
        } else {
            self.run(steps.drop_last()).after(steps.last())
        }
    }

    /// The effects of some steps.
    pub open spec fn trace(self, steps: Seq<Step>) -> Seq<Effect>
        decreases steps.len(),
    {
        if steps.len() == 0 {
            Seq::empty()
        } else {
            self.trace(steps.drop_last()) + self.run(steps.drop_last()).emits(steps.last())
        }
    }
}

} // verus!
