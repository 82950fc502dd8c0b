//! What the pool asks the node around it to do.

use vstd::prelude::*;

verus! {

/// One request to the node. Requests are performed in the order in which they are given. Those
/// whose name begins with `Ask` want a reply, and are the last of their batch.
#[derive(Clone, Debug, PartialEq, Eq)]
pub enum Action {
    /// Close the transaction wait channel: whoever waits for transactions goes on.
    CloseTxsWaitChan,
    /// Open a transaction wait channel: whoever needs transactions waits.
    MakeTxsWaitChan,
    /// Is the notification of available transactions enabled? The reply goes to
    /// `CListMempool::notify_txs_available`.
    AskTxsAvailableEnabled,
    /// Notify whoever waits on the channel of available transactions.
    NotifyTxsAvailable,
    /// Does the node's check before validation fail? The reply goes to `CListMempool::check_tx`.
    AskPreCheck,
    /// Is the connection to the application broken? The reply goes to `CListMempool::check_tx`.
    AskConnError,
    /// Does the node's check after validation fail for `tx`? The reply goes to
    /// `CListMempool::res_cb_post_check`, with the two values that are here.
    AskPostCheck { check_tx_code: u32, tx: Vec<u8> },
    /// Hand `tx` to the application for validation. With `set_callback`, the response goes to
    /// `CListMempool::res_cb_first_time`.
    CheckTxAsync { tx: Vec<u8>, set_callback: bool },
    /// Flush the connection to the application.
    FlushAsync,
    /// Report that a recheck response skipped a transaction.
    ReportRecheckMismatch,
}

/// What an [`Action`] says.
#[verifier::ext_equal]
pub enum Effect {
    CloseTxsWaitChan,
    MakeTxsWaitChan,
    AskTxsAvailableEnabled,
    NotifyTxsAvailable,
    AskPreCheck,
    AskConnError,
    AskPostCheck { check_tx_code: u32, tx: Seq<u8> },
    CheckTxAsync { tx: Seq<u8>, set_callback: bool },
    FlushAsync,
    ReportRecheckMismatch,
}

impl View for Action {
    type V = Effect;

    open spec fn view(&self) -> Effect {
        match *self {
            Action::CloseTxsWaitChan => Effect::CloseTxsWaitChan,
            Action::MakeTxsWaitChan => Effect::MakeTxsWaitChan,
            Action::AskTxsAvailableEnabled => Effect::AskTxsAvailableEnabled,
            Action::NotifyTxsAvailable => Effect::NotifyTxsAvailable,
            Action::AskPreCheck => Effect::AskPreCheck,
            Action::AskConnError => Effect::AskConnError,
            Action::AskPostCheck { check_tx_code, tx } => Effect::AskPostCheck {
                check_tx_code,
                tx: tx@,
            },
            Action::CheckTxAsync { tx, set_callback } => Effect::CheckTxAsync {
                tx: tx@,
                set_callback,
            },
            Action::FlushAsync => Effect::FlushAsync,
            Action::ReportRecheckMismatch => Effect::ReportRecheckMismatch,
        }
    }
}

/// What a batch of actions says.
pub open spec fn effects(actions: Seq<Action>) -> Seq<Effect> {
    actions.map_values(|a: Action| a@)
}

} // verus!
