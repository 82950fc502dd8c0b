//! The room in a pool, and the sums that are in range.

use vstd::prelude::*;

use crate::model::{fits_i64, MempoolState};
use crate::tx::sha256;

verus! {

/// There is no room exactly where the number of transactions has come to its limit or the bytes
/// would be over theirs. The sum is looked at only where the number leaves room.
pub proof fn law_room(pool: MempoolState, tx_size: int)
    ensures
        pool.full(tx_size) <==> {
            ||| pool.entries.len() >= pool.config.size
            ||| pool.txs_bytes + tx_size > pool.config.max_txs_bytes
        },
        pool.full_in_range(tx_size) <==> {
            ||| pool.entries.len() >= pool.config.size
            ||| i64::MIN <= pool.txs_bytes + tx_size <= i64::MAX
        },
        pool.within_limits() <==> {
            &&& pool.entries.len() <= pool.config.size
            &&& pool.txs_bytes <= pool.config.max_txs_bytes
        },
{
}

/// A pool that has no room for some bytes has none for more of them; and what there is room for
/// leaves the pool within its limits.
pub proof fn law_room_shrinks(pool: MempoolState, few: int, many: int)
    requires
        few <= many,
    ensures
        pool.full(few) ==> pool.full(many),
        !pool.full(few) ==> {
            &&& pool.entries.len() + 1 <= pool.config.size
            &&& pool.txs_bytes + few <= pool.config.max_txs_bytes
        },
{
}

/// An operation is in range exactly where the byte count after it is a value of `i64`; adding what
/// is there always is.
pub proof fn law_ranges(
    pool: MempoolState,
    key: Seq<u8>,
    tx: Seq<u8>,
    height: i64,
    txs: Seq<Seq<u8>>,
    n: int,
)
    ensures
        fits_i64(n) <==> i64::MIN <= n <= i64::MAX,
        pool.add_under_in_range(key, tx) <==> {
            ||| i64::MIN <= pool.txs_bytes + tx.len() <= i64::MAX
            ||| exists|i: int|
                0 <= i < pool.entries.len() && (#[trigger] pool.entries[i]).key == key
        },
        pool.add_in_range(tx) <==> pool.add_under_in_range(sha256(tx), tx),
        pool.remove_under_in_range(key) <==> i64::MIN <= pool.removed_under(key).txs_bytes
            <= i64::MAX,
        pool.remove_in_range(tx) <==> pool.remove_under_in_range(sha256(tx)),
        pool.remove_by_key_in_range(key) <==> {
            ||| forall|i: int|
                0 <= i < pool.entries.len() ==> (#[trigger] pool.entries[i]).key != key
            ||| pool.remove_under_in_range(sha256(pool.tx_at(key)))
        },
        pool.purge_in_range(txs) <==> i64::MIN <= pool.updated(height, txs).txs_bytes <= i64::MAX,
{
}

/// A first response is allowed exactly where nothing is left to recheck and, where it depends on
/// the room in the pool, the sum that decides is in range.
pub proof fn law_first_response_allowed(
    pool: MempoolState,
    code: u32,
    has_post_check_err: bool,
    tx: Seq<u8>,
)
    ensures
        pool.first_response_allowed(code, has_post_check_err, tx) <==> {
            &&& pool.recheck_txs.len() == 0
            &&& {
                ||| code != 0
                ||| has_post_check_err
                ||| pool.entries.len() >= pool.config.size
                ||| i64::MIN <= pool.txs_bytes + tx.len() <= i64::MAX
            }
        },
{
}

} // verus!
