//! Taking transactions for a block.

use vstd::prelude::*;

use crate::model::MempoolState;
use crate::reap::{sum, ReapLimits, ReapState};

verus! {

/// The limits settle how many transactions are taken.
pub proof fn law_reap_is_determined(
    limits: ReapLimits,
    sizes: Seq<i64>,
    gas: Seq<i64>,
    m: int,
    n: int,
)
    requires
        limits.take_count(sizes, gas, m),
        limits.take_count(sizes, gas, n),
    ensures
        m == n,
{
    if m < n {
        assert(limits.allow(sizes, gas, m + 1));
    } else if n < m {
        assert(limits.allow(sizes, gas, n + 1));
    }
}

/// What is taken is within the limits.
pub proof fn law_reap_within_limits(limits: ReapLimits, sizes: Seq<i64>, gas: Seq<i64>, n: int)
    requires
        limits.take_count(sizes, gas, n),
    ensures
        limits.max_bytes >= 0 ==> sum(sizes.take(n)) <= limits.max_bytes,
        limits.max_gas >= 0 ==> sum(gas.take(n)) <= limits.max_gas,
{
    if n > 0 {
        assert(limits.allow(sizes, gas, n));
    }
}

/// Without limits all transactions are taken.
pub proof fn law_reap_without_limits(limits: ReapLimits, sizes: Seq<i64>, gas: Seq<i64>, n: int)
    requires
        limits.max_bytes < 0,
        limits.max_gas < 0,
    ensures
        limits.take_count(sizes, gas, n) <==> n == gas.len(),
{
    if n < gas.len() {
        assert(limits.allow(sizes, gas, n + 1));
    }
}

/// More room never means fewer transactions.
pub proof fn law_reap_grows_with_limits(
    low: ReapLimits,
    high: ReapLimits,
    sizes: Seq<i64>,
    gas: Seq<i64>,
    m: int,
    n: int,
)
    requires
        low.take_count(sizes, gas, m),
        high.take_count(sizes, gas, n),
        high.max_bytes < 0 || 0 <= low.max_bytes <= high.max_bytes,
        high.max_gas < 0 || 0 <= low.max_gas <= high.max_gas,
    ensures
        m <= n,
{
    if n < m {
        assert(low.allow(sizes, gas, n + 1));
        assert(high.allow(sizes, gas, n + 1));
    }
}

/// Where each size has been wanted when it was told, and no more is wanted, the sizes are those of
/// the transactions that are taken and of the first that is not; and what is taken is what all
/// sizes of the pool would allow.
pub proof fn law_reap_asks_for_what_it_looks_at(
    pool: MempoolState,
    max_bytes: i64,
    max_gas: i64,
    all: Seq<i64>,
    told: int,
    n: int,
)
    requires
        all.len() == pool.size(),
        0 <= told <= all.len(),
        forall|m: int|
            0 <= m < told ==> (#[trigger] pool.reap_told(
                max_bytes,
                max_gas,
                all.take(m),
            )).goes_on(),
        !pool.reap_told(max_bytes, max_gas, all.take(told)).goes_on(),
        (ReapLimits { max_bytes, max_gas }).take_count(all.take(told), pool.gas_wanted(), n),
    ensures
        told == if n < pool.size() {
            n + 1
        } else {
            n
        },
        (ReapLimits { max_bytes, max_gas }).take_count(all, pool.gas_wanted(), n),
{
    let limits = ReapLimits { max_bytes, max_gas };
    let gas = pool.gas_wanted();
    let some = all.take(told);
    assert(pool.reap_told(max_bytes, max_gas, some).gas_wanted() == gas);
    assert(told >= n + 1 || told == pool.size()) by {
        if told <= n && told < pool.size() {
            assert(!limits.allow_up_to(some, gas, told));
            let m = choose|m: int| 1 <= m <= told && !(#[trigger] limits.allow(some, gas, m));
            assert(limits.allow(some, gas, m));
        }
    }
    if n + 1 < told {
        let state = pool.reap_told(max_bytes, max_gas, all.take(n + 1));
        assert(state.goes_on());
        assert(state.gas_wanted() == gas);
        assert(limits.allow(all.take(n + 1), gas, n + 1));
        assert(all.take(n + 1).take(n + 1) == some.take(n + 1));
    }
    assert forall|m: int| 1 <= m <= n implies #[trigger] limits.allow(all, gas, m) by {
        assert(limits.allow(some, gas, m));
        assert(some.take(m) == all.take(m));
    }
    if n < pool.size() {
        assert(some.take(n + 1) == all.take(n + 1));
    }
}

/// Nothing is left out without need: the first transaction that is not taken would make the bytes
/// exceed their limit, or the gas its own; and every transaction before it fits within both.
pub proof fn law_reap_takes_all_that_fit(limits: ReapLimits, sizes: Seq<i64>, gas: Seq<i64>, n: int)
    requires
        limits.take_count(sizes, gas, n),
    ensures
        0 <= n <= gas.len(),
        n < gas.len() ==> {
            ||| limits.max_bytes >= 0 && sum(sizes.take(n + 1)) > limits.max_bytes
            ||| limits.max_gas >= 0 && sum(gas.take(n + 1)) > limits.max_gas
        },
        forall|m: int|
            1 <= m <= n ==> {
                &&& limits.max_bytes >= 0 ==> sum(#[trigger] sizes.take(m)) <= limits.max_bytes
                &&& limits.max_gas >= 0 ==> sum(gas.take(m)) <= limits.max_gas
            },
{
    assert forall|m: int| 1 <= m <= n implies {
        &&& limits.max_bytes >= 0 ==> sum(#[trigger] sizes.take(m)) <= limits.max_bytes
        &&& limits.max_gas >= 0 ==> sum(gas.take(m)) <= limits.max_gas
    } by {
        assert(limits.allow(sizes, gas, m));
    }
}

/// And whatever number has these two properties is the number that is taken.
pub proof fn law_reap_takes_what_is_within_limits(
    limits: ReapLimits,
    sizes: Seq<i64>,
    gas: Seq<i64>,
    n: int,
)
    requires
        0 <= n <= gas.len(),
        forall|m: int|
            1 <= m <= n ==> {
                &&& limits.max_bytes >= 0 ==> sum(#[trigger] sizes.take(m)) <= limits.max_bytes
                &&& limits.max_gas >= 0 ==> sum(gas.take(m)) <= limits.max_gas
            },
        n < gas.len() ==> {
            ||| limits.max_bytes >= 0 && sum(sizes.take(n + 1)) > limits.max_bytes
            ||| limits.max_gas >= 0 && sum(gas.take(n + 1)) > limits.max_gas
        },
    ensures
        limits.take_count(sizes, gas, n),
{
    assert forall|m: int| 1 <= m <= n implies #[trigger] limits.allow(sizes, gas, m) by {
        let size = sum(sizes.take(m));
    }
}

/// The sum of no numbers is zero, and each number adds itself.
pub proof fn law_sum(s: Seq<i64>, n: i64)
    ensures
        sum(Seq::<i64>::empty()) == 0,
        sum(s.push(n)) == sum(s) + n,
{
    assert(s.push(n).drop_last() == s);
}

/// Reaping begins with all transactions of the pool, the oldest first, the limits that are asked
/// for, and no size told.
pub proof fn law_reap_begins(pool: MempoolState, max_bytes: i64, max_gas: i64)
    ensures
        ({
            let reaping = pool.reap_start(max_bytes, max_gas);
            &&& reaping.limits.max_bytes == max_bytes
            &&& reaping.limits.max_gas == max_gas
            &&& reaping.sizes.len() == 0
            &&& reaping.txs.len() == pool.entries.len()
            &&& forall|i: int|
                0 <= i < pool.entries.len() ==> #[trigger] reaping.txs[i] == pool.entries[i].tx
        }),
{
}

/// The next size is wanted exactly where there is another transaction and all sizes that have been
/// told fit with the gas of their transactions. A size that is told is noted as it is.
pub proof fn law_reap_goes_on(reaping: ReapState, proto_size: i64)
    ensures
        reaping.gas_wanted().len() == reaping.txs.len(),
        forall|i: int|
            0 <= i < reaping.txs.len() ==> #[trigger] reaping.gas_wanted()[i]
                == reaping.txs[i].gas_wanted,
        reaping.goes_on() <==> {
            &&& reaping.sizes.len() < reaping.txs.len()
            &&& forall|m: int|
                1 <= m <= reaping.sizes.len() ==> {
                    &&& reaping.limits.max_bytes >= 0 ==> sum(#[trigger] reaping.sizes.take(m))
                        <= reaping.limits.max_bytes
                    &&& reaping.limits.max_gas >= 0 ==> sum(reaping.gas_wanted().take(m))
                        <= reaping.limits.max_gas
                }
        },
        reaping.told(proto_size).sizes == reaping.sizes.push(proto_size),
        reaping.told(proto_size).txs == reaping.txs,
        reaping.told(proto_size).limits == reaping.limits,
        reaping.tell_in_range(proto_size) <==> {
            let bytes = sum(reaping.sizes) + proto_size;
            let gas = sum(reaping.gas_wanted().take(reaping.sizes.len() as int + 1));
            &&& i64::MIN <= bytes <= i64::MAX
            &&& {
                ||| reaping.limits.max_bytes >= 0 && bytes > reaping.limits.max_bytes
                ||| i64::MIN <= gas <= i64::MAX
            }
        },
{
    let limits = reaping.limits;
    let sizes = reaping.sizes;
    let gas = reaping.gas_wanted();
    if reaping.goes_on() {
        assert forall|m: int| 1 <= m <= sizes.len() implies {
            &&& limits.max_bytes >= 0 ==> sum(#[trigger] sizes.take(m)) <= limits.max_bytes
            &&& limits.max_gas >= 0 ==> sum(gas.take(m)) <= limits.max_gas
        } by {
            assert(limits.allow(sizes, gas, m));
        }
    }
    if forall|m: int|
        1 <= m <= sizes.len() ==> {
            &&& limits.max_bytes >= 0 ==> sum(#[trigger] sizes.take(m)) <= limits.max_bytes
            &&& limits.max_gas >= 0 ==> sum(gas.take(m)) <= limits.max_gas
        } {
        assert forall|m: int| 1 <= m <= sizes.len() implies #[trigger] limits.allow(
            sizes,
            gas,
            m,
        ) by {
            let size = sum(sizes.take(m));
        }
    }
}

/// Never more than the number that is asked for is taken, never more than there are, and fewer
/// than asked for only where all are; a negative number asks for all.
pub proof fn law_reap_up_to_a_number(pool: MempoolState, max_txs: i32)
    ensures
        pool.reap_count(max_txs) <= pool.entries.len(),
        max_txs < 0 ==> pool.reap_count(max_txs) == pool.entries.len(),
        max_txs >= 0 ==> pool.reap_count(max_txs) <= max_txs,
        0 <= pool.reap_count(max_txs) < max_txs ==> pool.reap_count(max_txs) == pool.entries.len(),
{
}

} // verus!
