//! Taking transactions for a block: the oldest ones, up to some limits.

use vstd::prelude::*;

use crate::mempool::CListMempool;
use crate::model::{fits_i64, MempoolState};
use crate::store::map_iter;
use crate::tx::{MempoolTx, TxRecord};

verus! {

/// The sum of some numbers.
pub open spec fn sum(s: Seq<i64>) -> int
    decreases s.len(),
{
    if s.len() == 0 {
        0
    } else {
        sum(s.drop_last()) + s.last()
    }
}

/// The sum of the first `n + 1` numbers, from that of the first `n`.
proof fn lemma_sum_step(s: Seq<i64>, n: int)
    requires
        0 <= n < s.len(),
    ensures
        sum(s.take(n + 1)) == sum(s.take(n)) + s[n],
{
    assert(s.take(n + 1).drop_last() == s.take(n));
}

/// What some references to transactions point to.
pub open spec fn reaped(txs: Seq<&MempoolTx>) -> Seq<TxRecord> {
    txs.map_values(|tx: &MempoolTx| tx@)
}

/// The limits on what is taken: a negative limit is none.
#[derive(Clone, Copy, Debug, PartialEq, Eq, Structural)]
pub struct ReapLimits {
    pub max_bytes: i64,
    pub max_gas: i64,
}

impl ReapLimits {
    /// Whether `bytes` are not too many.
    pub open spec fn allow_bytes(self, bytes: int) -> bool {
        self.max_bytes >= 0 ==> bytes <= self.max_bytes
    }

    /// Whether `gas` is not too much.
    pub open spec fn allow_gas(self, gas: int) -> bool {
        self.max_gas >= 0 ==> gas <= self.max_gas
    }

    /// Whether the first `n` transactions, which have these encoded sizes and want this gas, are
    /// within the limits.
    pub open spec fn allow(self, sizes: Seq<i64>, gas: Seq<i64>, n: int) -> bool {
        self.allow_bytes(sum(sizes.take(n))) && self.allow_gas(sum(gas.take(n)))
    }

    /// Whether the first `m` transactions are within the limits for each `m` from one to `n`.
    pub open spec fn allow_up_to(self, sizes: Seq<i64>, gas: Seq<i64>, n: int) -> bool {
        forall|m: int| 1 <= m <= n ==> #[trigger] self.allow(sizes, gas, m)
    }

    /// Whether exactly the first `n` transactions are taken: one after the other while they are
    /// within the limits, up to the first that is not.
    pub open spec fn take_count(self, sizes: Seq<i64>, gas: Seq<i64>, n: int) -> bool {
        &&& 0 <= n <= gas.len()
        &&& self.allow_up_to(sizes, gas, n)
        &&& n < gas.len() ==> !self.allow(sizes, gas, n + 1)
    }
}

/// How far the taking of transactions within some limits has come.
#[verifier::ext_equal]
pub struct ReapState {
    pub limits: ReapLimits,
    /// The transactions of the pool, the oldest first.
    pub txs: Seq<TxRecord>,
    /// The encoded sizes of the first transactions, as far as they have been told.
    pub sizes: Seq<i64>,
}

impl ReapState {
    /// The gas that the transactions want.
    pub open spec fn gas_wanted(self) -> Seq<i64> {
        self.txs.map_values(|tx: TxRecord| tx.gas_wanted)
    }

    /// Whether one more size is wanted: all that have been told are within the limits, and there
    /// is another transaction.
    pub open spec fn goes_on(self) -> bool {
        &&& self.sizes.len() < self.txs.len()
        &&& self.limits.allow_up_to(self.sizes, self.gas_wanted(), self.sizes.len() as int)
    }

    /// One more size is told.
    pub open spec fn told(self, proto_size: i64) -> Self {
        ReapState { sizes: self.sizes.push(proto_size), ..self }
    }

    /// Whether the sums that one more size is looked at with are in range: that of the sizes, and,
    /// unless they are too many bytes, that of the gas.
    pub open spec fn tell_in_range(self, proto_size: i64) -> bool {
        let bytes = sum(self.sizes) + proto_size;
        let gas = sum(self.gas_wanted().take(self.sizes.len() as int + 1));
        fits_i64(bytes) && (self.limits.allow_bytes(bytes) ==> fits_i64(gas))
    }
}

/// The taking of the oldest transactions of a pool, one after the other while they are within some
/// limits. It asks for the encoded size of each transaction that it looks at, and of no other.
pub struct Reaping<'a> {
    txs: Vec<&'a MempoolTx>,
    limits: ReapLimits,
    /// How many transactions are taken.
    count: usize,
    /// Whether the next transaction is not within the limits.
    over: bool,
    running_size: i64,
    running_gas: i64,
    sizes: Ghost<Seq<i64>>,
}

impl<'a> View for Reaping<'a> {
    type V = ReapState;

    closed spec fn view(&self) -> ReapState {
        ReapState { limits: self.limits, txs: reaped(self.txs@), sizes: self.sizes@ }
    }
}

impl<'a> Reaping<'a> {
    /// Whether the sums are those of the transactions that are taken, and these are as many as the
    /// sizes that have been told allow.
    pub closed spec fn well_formed(&self) -> bool {
        let n = self.count as int;
        let gas = self@.gas_wanted();
        &&& n <= self.txs@.len()
        &&& self.limits.allow_up_to(self.sizes@, gas, n)
        &&& self.running_size == sum(self.sizes@.take(n))
        &&& self.running_gas == sum(gas.take(n))
        &&& if self.over {
            &&& self.sizes@.len() == n + 1 <= self.txs@.len()
            &&& !self.limits.allow(self.sizes@, gas, n + 1)
        } else {
            self.sizes@.len() == n
        }
    }

    /// The transaction whose encoded size is wanted; `None` where no more is.
    pub fn wants(&self) -> (wanted: Option<&'a MempoolTx>)
        requires
            self.well_formed(),
        ensures
            match wanted {
                Some(tx) => self@.goes_on() && tx@ == self@.txs[self@.sizes.len() as int],
                None => !self@.goes_on(),
            },
    {
        if self.over || self.count >= self.txs.len() {
            return None;
        }
        Some(self.txs[self.count])
    }

    /// Takes the encoded size of the transaction that it is wanted of. False says that a sum
    /// would leave its range; nothing is done then.
    pub fn tell(&mut self, proto_size: i64) -> (in_range: bool)
        requires
            old(self).well_formed(),
            old(self)@.goes_on(),
        ensures
            in_range == old(self)@.tell_in_range(proto_size),
            final(self).well_formed(),
            final(self)@ == if in_range {
                old(self)@.told(proto_size)
            } else {
                old(self)@
            },
    {
        let ghost n = self.count as int;
        let ghost gas = self@.gas_wanted();
        let ghost before = self.sizes@;
        let ghost sizes = before.push(proto_size);
        proof {
            assert(before.take(n) == before);
            assert(sizes.take(n) == before);
            assert(sizes.take(n + 1) == sizes);
            lemma_sum_step(sizes, n);
            lemma_sum_step(gas, n);
            assert forall|m: int| 1 <= m <= n implies #[trigger] self.limits.allow(
                sizes,
                gas,
                m,
            ) by {
                assert(sizes.take(m) == before.take(m));
                assert(self.limits.allow(before, gas, m));
            }
        }
        let tentative_size: i64 = match self.running_size.checked_add(proto_size) {
            Some(size) => size,
            None => {
                return false;
            },
        };
        if self.limits.max_bytes > -1 && tentative_size > self.limits.max_bytes {
            self.over = true;
            self.sizes = Ghost(sizes);
            return true;
        }
        let gas_wanted = self.txs[self.count].gas_wanted;
        let tentative_gas: i64 = match self.running_gas.checked_add(gas_wanted) {
            Some(gas) => gas,
            None => {
                return false;
            },
        };
        self.sizes = Ghost(sizes);
        if self.limits.max_gas > -1 && tentative_gas > self.limits.max_gas {
            self.over = true;
            return true;
        }
        self.running_size = tentative_size;
        self.running_gas = tentative_gas;
        assert(self.count < self.txs.len());
        self.count = self.count + 1;
        true
    }

    /// The transactions that are taken.
    pub fn taken(self) -> (txs: Vec<&'a MempoolTx>)
        requires
            self.well_formed(),
            !self@.goes_on(),
        ensures
            reaped(txs@) == self@.txs.take(txs@.len() as int),
            self@.limits.take_count(self@.sizes, self@.gas_wanted(), txs@.len() as int),
    {
        let mut txs = self.txs;
        txs.truncate(self.count);
        txs
    }
}

impl CListMempool {
    /// Begins to take the oldest transactions, as many as stay within `max_bytes` of encoded size
    /// and `max_gas` of gas; a negative limit is none. They stay in the pool.
    pub fn reap_max_bytes_max_gas(&self, max_bytes: i64, max_gas: i64) -> (reaping: Reaping<'_>)
        ensures
            reaping.well_formed(),
            reaping@ == self@.reap_start(max_bytes, max_gas),
    {
        let txs = self.reap_max_txs(-1);
        let reaping = Reaping {
            txs,
            limits: ReapLimits { max_bytes, max_gas },
            count: 0,
            over: false,
            running_size: 0,
            running_gas: 0,
            sizes: Ghost(Seq::empty()),
        };
        assert(self@.txs().take(self@.size() as int) == self@.txs());
        reaping
    }

    /// The oldest `max_txs` transactions, or all where there are not more or `max_txs` is negative.
    pub fn reap_max_txs(&self, max_txs: i32) -> (txs: Vec<&MempoolTx>)
        ensures
            txs@.len() == self@.reap_count(max_txs),
            txs@.len() == if 0 <= max_txs < self@.entries.len() {
                max_txs as nat
            } else {
                self@.entries.len()
            },
            forall|i: int| 0 <= i < txs@.len() ==> (#[trigger] txs@[i])@ == self@.entries[i].tx,
            reaped(txs@) == self@.txs().take(txs@.len() as int),
    {
        let items = map_iter(&self.txs);
        let mut txs_to_return: Vec<&MempoolTx> = Vec::new();
        let mut i: usize = 0;
        while i < items.len() && (max_txs < 0 || i < max_txs as usize)
            invariant
                0 <= i <= items.len(),
                i <= self@.reap_count(max_txs),
                items@.len() == self@.entries.len(),
                forall|j: int|
                    0 <= j < items@.len() ==> (#[trigger] items@[j]).1@ == self@.entries[j].tx,
                txs_to_return@.len() == i,
                reaped(txs_to_return@) == self@.txs().take(i as int),
                forall|j: int|
                    0 <= j < i ==> (#[trigger] txs_to_return@[j])@ == self@.entries[j].tx,
            decreases items.len() - i,
        {
            let mem_tx = items[i].1;
            txs_to_return.push(mem_tx);
            i = i + 1;
        }
        txs_to_return
    }
}

impl MempoolState {
    /// The gas that the transactions want, the oldest first.
    pub open spec fn gas_wanted(self) -> Seq<i64> {
        self.txs().map_values(|tx: TxRecord| tx.gas_wanted)
    }

    /// The taking of transactions within some limits, before any size is told.
    pub open spec fn reap_start(self, max_bytes: i64, max_gas: i64) -> ReapState {
        self.reap_told(max_bytes, max_gas, Seq::empty())
    }

    /// The taking of transactions within some limits, with the sizes that have been told.
    pub open spec fn reap_told(self, max_bytes: i64, max_gas: i64, sizes: Seq<i64>) -> ReapState {
        ReapState { limits: ReapLimits { max_bytes, max_gas }, txs: self.txs(), sizes }
    }

    /// How many transactions are taken when at most `max_txs` are wanted; a negative limit is
    /// none.
    pub open spec fn reap_count(self, max_txs: i32) -> nat {
        if 0 <= max_txs < self.size() {
            max_txs as nat
        } else {
            self.size()
        }
    }
}

} // verus!
