# clist_mempool

A first-in first-out pool of pending transactions, written in Verus, for a node that runs in go.

The pool decides and the node acts. An operation changes the pool and returns the actions that the
node is to perform, in order: open or close the channel on which others wait for transactions, hand
a transaction to the application, notify. Some actions ask the node something; the reply is an
argument of the next operation.

## Layout

- `src/tx.rs`: transactions and their keys, which are SHA-256 digests.
- `src/store.rs`: the insertion-ordered map that holds the transactions.
- `src/action.rs`: what the pool asks of the node.
- `src/model.rs`: the state of a pool as a mathematical value, and what each operation makes of it.
- `src/mempool.rs`, `src/reap.rs`: the pool, and taking transactions for a block.
- `src/guard.rs`: tests of whether an operation can be called.
- `src/raw.rs`, `src/ffi.rs`: the operations of the one pool of a process. A call that the pool is
  not ready for is refused.
- `src/laws/`: what holds of the pool as a whole.
- `app/`: the C interface. It holds the pool, turns pointers into slices and back, and performs the
  actions.

## What it keeps

- A transaction is in the pool at most once, under its own key, and the oldest comes first.
- The byte count is the total size of the transactions in the pool. Removing a transaction takes
  off the size of what leaves; where nothing leaves, the count stays.
- Responses take in no transaction that there is no room for.
- After an update the transactions that stay are validated again, in their order. Each response
  takes off the oldest one that is left, so none is skipped while responses come in that order.

The files under `src/laws/` state these and prove them of every run of the pool.
