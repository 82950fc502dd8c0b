//! A first-in first-out pool of pending transactions, for a node that runs in another language.
//!
//! The pool decides; the node acts. An operation of [`mempool::CListMempool`] changes the pool and
//! gives back the [`action::Action`]s that the node is to perform, in order. Where an action asks
//! the node something, the reply goes into the next operation.
//!
//! [`ffi`] has the same operations for the one pool of a process, which may not be there yet.

pub mod action;
pub mod ffi;
mod guard;
pub mod laws;
pub mod mempool;
pub mod model;
pub mod raw;
pub mod reap;
pub mod store;
pub mod tx;
