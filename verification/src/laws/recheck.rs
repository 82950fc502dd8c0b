//! The transactions that are validated again.

use vstd::prelude::*;

use crate::action::Effect;
use crate::laws::Step;
use crate::laws::keys::{law_remove, law_step_keeps_keys, well_keyed};
use crate::laws::node::lemma_no_drain;
use crate::model::{
    is_first_match, lemma_first_match_is_unique, skipped, MempoolState, ABCI_CODE_TYPE_OK,
};

verus! {

/// Where recheck is on, an update that leaves some transactions puts exactly these down for
/// recheck, and hands each of them to the application, in their order, before it flushes the
/// connection.
pub proof fn law_recheck_covers_the_pool(pool: MempoolState, height: i64, txs: Seq<Seq<u8>>)
    requires
        pool.config.recheck,
        pool.purged(txs).size() > 0,
    ensures
        ({
            let rest = pool.updated(height, txs);
            let n = rest.size();
            let emitted = pool.update_effects(txs);
            &&& rest.recheck_txs == rest.txs()
            &&& emitted.len() == n + 1
            &&& forall|i: int|
                0 <= i < n ==> #[trigger] emitted[i] == (Effect::CheckTxAsync {
                    tx: rest.txs()[i].tx,
                    set_callback: false,
                })
            &&& emitted[n as int] == Effect::FlushAsync
        }),
{
    lemma_no_drain(pool.entries, txs);
}

/// A recheck response takes at least one transaction off those that are left to recheck, from the
/// front, and never adds one: so a recheck ends.
pub proof fn law_recheck_goes_on(pool: MempoolState, tx: Seq<u8>)
    ensures
        ({
            let s = pool.recheck_txs;
            let rest = pool.rechecked(tx).recheck_txs;
            &&& rest.len() <= s.len()
            &&& rest == s.skip(s.len() - rest.len())
            &&& s.len() > 0 ==> rest.len() < s.len()
        }),
{
    let s = pool.recheck_txs;
    lemma_first_match_is_unique(s, tx);
    if exists|j: int| is_first_match(s, tx, j) {
        let j = choose|j: int| is_first_match(s, tx, j);
        assert(s.skip(j + 1).len() == s.len() - (j + 1));
    }
}

/// A response for the oldest transaction that is left to recheck takes off that one alone, and
/// skips none; a response for a transaction that is not left takes off all of them, and reports
/// each.
pub proof fn law_recheck_from_the_front(pool: MempoolState, code: u32, tx: Seq<u8>)
    ensures
        ({
            let s = pool.recheck_txs;
            let emitted = pool.recheck_response_effects(code, tx);
            &&& s.len() > 0 && s[0].tx == tx ==> {
                &&& pool.rechecked(tx).recheck_txs == s.skip(1)
                &&& emitted == seq![Effect::AskPostCheck { check_tx_code: code, tx }]
            }
            &&& (forall|i: int| 0 <= i < s.len() ==> (#[trigger] s[i]).tx != tx) ==> {
                &&& pool.rechecked(tx).recheck_txs.len() == 0
                &&& skipped(s, tx) == s.len()
            }
        }),
{
    let s = pool.recheck_txs;
    lemma_first_match_is_unique(s, tx);
    if s.len() > 0 && s[0].tx == tx {
        assert(is_first_match(s, tx, 0));
    }
}

/// The transactions that the recheck responses among some steps are for.
pub open spec fn responses(steps: Seq<Step>) -> Seq<Seq<u8>>
    decreases steps.len(),
{
    if steps.len() == 0 {
        Seq::empty()
    } else {
        match steps.last() {
            Step::RecheckResponse { code, tx } => responses(steps.drop_last()).push(tx),
            _ => responses(steps.drop_last()),
        }
    }
}

/// The transactions that the check after validation is asked about.
pub open spec fn questions(effects: Seq<Effect>) -> Seq<Seq<u8>>
    decreases effects.len(),
{
    if effects.len() == 0 {
        Seq::empty()
    } else {
        match effects.last() {
            Effect::AskPostCheck { check_tx_code, tx } => questions(effects.drop_last()).push(tx),
            _ => questions(effects.drop_last()),
        }
    }
}

proof fn lemma_questions_of_both(a: Seq<Effect>, b: Seq<Effect>)
    ensures
        questions(a + b) == questions(a) + questions(b),
    decreases b.len(),
{
    if b.len() == 0 {
        assert(a + b == a);
    } else {
        assert((a + b).drop_last() == a + b.drop_last());
        lemma_questions_of_both(a, b.drop_last());
    }
}

proof fn lemma_no_question(effects: Seq<Effect>)
    requires
        forall|i: int| 0 <= i < effects.len() ==> !(#[trigger] effects[i] is AskPostCheck),
    ensures
        questions(effects) == Seq::<Seq<u8>>::empty(),
    decreases effects.len(),
{
    if effects.len() > 0 {
        assert(!(effects[effects.len() - 1] is AskPostCheck));
        lemma_no_question(effects.drop_last());
    }
}

/// Between two updates, whatever else happens to the pool, responses that come in the order of the
/// transactions left to recheck take off one each and skip none: the check after validation is
/// asked about exactly these, in this order, and nothing is reported. So when all responses have
/// come, it has been asked about every transaction that the update left.
pub proof fn law_recheck_in_order(pool: MempoolState, steps: Seq<Step>)
    requires
        forall|i: int| 0 <= i < steps.len() ==> !(#[trigger] steps[i] is Update),
        responses(steps).len() <= pool.recheck_txs.len(),
        forall|i: int|
            0 <= i < responses(steps).len() ==> (#[trigger] responses(steps)[i])
                == pool.recheck_txs[i].tx,
    ensures
        pool.run(steps).recheck_txs == pool.recheck_txs.skip(responses(steps).len() as int),
        questions(pool.trace(steps)) == responses(steps),
        forall|i: int|
            0 <= i < pool.trace(steps).len() ==> (#[trigger] pool.trace(steps)[i])
                != Effect::ReportRecheckMismatch,
    decreases steps.len(),
{
    if steps.len() > 0 {
        let before = steps.drop_last();
        let step = steps.last();
        assert(!(steps[steps.len() - 1] is Update));
        assert forall|i: int| 0 <= i < responses(before).len() implies (#[trigger] responses(
            before,
        )[i]) == pool.recheck_txs[i].tx by {
            assert(responses(steps)[i] == responses(before)[i]);
        }
        law_recheck_in_order(pool, before);
        let now = pool.run(before);
        let emitted = now.emits(step);
        lemma_questions_of_both(pool.trace(before), emitted);
        match step {
            Step::RecheckResponse { code, tx } => {
                let n = responses(before).len() as int;
                assert(responses(steps)[n] == tx);
                assert(now.recheck_txs[0] == pool.recheck_txs[n]);
                law_recheck_from_the_front(now, code, tx);
                assert(now.recheck_txs.skip(1) == pool.recheck_txs.skip(n + 1));
                assert(emitted.drop_last() == Seq::<Effect>::empty());
                assert(questions(emitted.drop_last()) == Seq::<Seq<u8>>::empty());
                assert(questions(emitted) == seq![tx]);
            },
            _ => {
                lemma_no_question(emitted);
            },
        }
    } else {
        assert(pool.recheck_txs.skip(0) == pool.recheck_txs);
    }
}

/// What comes back for a transaction that is rechecked: the code of the application, and whether
/// the check after validation fails.
pub struct Verdict {
    pub code: u32,
    pub has_post_check_err: bool,
}

impl Verdict {
    /// Whether the transaction is still valid.
    pub open spec fn valid(self) -> bool {
        self.code == ABCI_CODE_TYPE_OK && !self.has_post_check_err
    }
}

impl MempoolState {
    /// The pool after the first transactions that are left to recheck got their verdicts, in their
    /// order.
    pub open spec fn judged(self, verdicts: Seq<Verdict>) -> Self
        decreases verdicts.len(),
    {
        if verdicts.len() == 0 {
            self
        } else {
            let tx = self.recheck_txs[verdicts.len() - 1].tx;
            let verdict = verdicts.last();
            self.judged(verdicts.drop_last()).rechecked(tx).post_checked(
                verdict.code,
                tx,
                verdict.has_post_check_err,
            )
        }
    }
}

/// Where recheck is on and an update leaves some transactions of a well-keyed pool, verdicts on
/// all of them in their order end the recheck, and a transaction is in the pool afterwards exactly
/// where its verdict is that it is still valid.
pub proof fn law_recheck_removes_what_is_not_valid(
    pool: MempoolState,
    height: i64,
    txs: Seq<Seq<u8>>,
    verdicts: Seq<Verdict>,
    i: int,
)
    requires
        well_keyed(pool.entries),
        pool.config.recheck,
        0 <= i < pool.updated(height, txs).size(),
        verdicts.len() == pool.updated(height, txs).size(),
    ensures
        ({
            let rest = pool.updated(height, txs);
            &&& rest.judged(verdicts).recheck_txs.len() == 0
            &&& rest.judged(verdicts).has_tx(rest.txs()[i].tx) <==> verdicts[i].valid()
        }),
{
    law_step_keeps_keys(pool, Step::Update { height, txs });
    lemma_judged(pool.updated(height, txs), verdicts);
}

proof fn lemma_judged(pool: MempoolState, verdicts: Seq<Verdict>)
    requires
        well_keyed(pool.entries),
        pool.recheck_txs == pool.txs(),
        verdicts.len() <= pool.size(),
    ensures
        pool.judged(verdicts).recheck_txs == pool.recheck_txs.skip(verdicts.len() as int),
        forall|i: int|
            0 <= i < pool.size() ==> (pool.judged(verdicts).has_tx(
                (#[trigger] pool.entries[i]).tx.tx,
            ) <==> (i < verdicts.len() ==> verdicts[i].valid())),
    decreases verdicts.len(),
{
    if verdicts.len() == 0 {
        assert(pool.recheck_txs.skip(0) == pool.recheck_txs);
    } else {
        let n = verdicts.len() - 1;
        let now = pool.judged(verdicts.drop_last());
        let tx = pool.recheck_txs[n].tx;
        lemma_judged(pool, verdicts.drop_last());
        assert(now.recheck_txs[0] == pool.recheck_txs[n]);
        law_recheck_from_the_front(now, 0, tx);
        assert(now.recheck_txs.skip(1) == pool.recheck_txs.skip(n + 1));
        assert(pool.entries[n].tx.tx == tx);
        assert forall|i: int| 0 <= i < pool.size() implies (pool.judged(verdicts).has_tx(
            (#[trigger] pool.entries[i]).tx.tx,
        ) <==> (i < verdicts.len() ==> verdicts[i].valid())) by {
            let other = pool.entries[i].tx.tx;
            law_remove(now.rechecked(tx), tx, other);
            if i < n {
                assert(pool.entries[i].key != pool.entries[n].key);
                assert(verdicts.drop_last()[i] == verdicts[i]);
            } else if n < i {
                assert(pool.entries[n].key != pool.entries[i].key);
            }
        }
    }
}

/// Of the transactions left to recheck, a response for the one at `j`, where no earlier one is the
/// same, leaves those behind it, reports each of the earlier ones, and asks about the transaction
/// with the code of the response. Nothing else of the pool changes.
pub proof fn law_recheck_response(pool: MempoolState, code: u32, tx: Seq<u8>, j: int)
    requires
        0 <= j < pool.recheck_txs.len(),
        pool.recheck_txs[j].tx == tx,
        forall|k: int| 0 <= k < j ==> (#[trigger] pool.recheck_txs[k]).tx != tx,
    ensures
        ({
            let rest = pool.rechecked(tx);
            let emitted = pool.recheck_response_effects(code, tx);
            &&& rest.recheck_txs == pool.recheck_txs.subrange(j + 1, pool.recheck_txs.len() as int)
            &&& emitted.len() == j + 1
            &&& forall|i: int|
                0 <= i < j ==> #[trigger] emitted[i] == Effect::ReportRecheckMismatch
            &&& emitted[j] == (Effect::AskPostCheck { check_tx_code: code, tx })
            &&& rest.config == pool.config
            &&& rest.height == pool.height
            &&& rest.entries == pool.entries
            &&& rest.txs_bytes == pool.txs_bytes
            &&& rest.notified_txs_available == pool.notified_txs_available
        }),
{
    lemma_first_match_is_unique(pool.recheck_txs, tx);
    assert(is_first_match(pool.recheck_txs, tx, j));
}

/// A response for a transaction that is not left to recheck leaves none to recheck, and reports
/// each one that was; it is asked about nonetheless, unless none was left.
pub proof fn law_recheck_response_without_match(pool: MempoolState, code: u32, tx: Seq<u8>)
    requires
        forall|k: int|
            0 <= k < pool.recheck_txs.len() ==> (#[trigger] pool.recheck_txs[k]).tx != tx,
    ensures
        ({
            let rest = pool.rechecked(tx);
            let emitted = pool.recheck_response_effects(code, tx);
            let n = pool.recheck_txs.len() as int;
            &&& rest.recheck_txs.len() == 0
            &&& n == 0 ==> emitted.len() == 0
            &&& n > 0 ==> {
                &&& emitted.len() == n + 1
                &&& forall|i: int|
                    0 <= i < n ==> #[trigger] emitted[i] == Effect::ReportRecheckMismatch
                &&& emitted[n] == (Effect::AskPostCheck { check_tx_code: code, tx })
            }
            &&& rest.config == pool.config
            &&& rest.height == pool.height
            &&& rest.entries == pool.entries
            &&& rest.txs_bytes == pool.txs_bytes
            &&& rest.notified_txs_available == pool.notified_txs_available
        }),
{
    lemma_first_match_is_unique(pool.recheck_txs, tx);
}

} // verus!
