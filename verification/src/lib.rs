//! The deciding core of a federation member.
//!
//! [`net`] keeps the connections to the other members: a backoff generator,
//! the state machine of one link, and the set of all links with its queues.
//! [`consensus`] holds the funding rule of transactions, [`portalloc`] the
//! books of reserved port ranges, [`task`], [`modules`] and [`bitcoind`]
//! what the program around them decides between two waits.
//!
//! Nothing here waits, listens or reads a clock: the functions take what
//! happened and say what follows.

pub mod amount;
pub mod bitcoind;
pub mod consensus;
pub mod modules;
pub mod net;
pub mod portalloc;
pub mod task;
