//! A user-space driver model for a Linux asynchronous I/O ring: two
//! single-producer / single-consumer ring buffers shared with the kernel (a
//! submission ring and a completion ring), an indirection table that doubles
//! as a free list of submission slots, and the decision logic behind the
//! three ring system calls.
//!
//! The kernel is an outside collaborator.  Everything it shares with user
//! space appears here as plain state: the shared counters are free-running
//! 32-bit cursors, the indirection and entry tables are plain vectors, and
//! the kernel's documented behaviour is a verified transition (`Ring::enter`)
//! together with an overflow queue.  All cursor arithmetic, the free-list
//! permutation discipline, the submit, wait and flush decisions, and the
//! setup computations are verified.  Raw system calls, memory mappings and
//! atomics cannot be verified and stay outside the library; a live driver
//! feeds the values it loads from shared memory in through the narrow
//! `observe` entry points and reads back the words to store.

pub mod cq;
pub mod cqe;
pub mod cursor;
pub mod kernel;
pub mod reg;
pub mod ring;
pub mod sq;
pub mod sqe;
pub mod sys;
pub mod utils;

pub use cq::CompletionQueue;
pub use cq::CqView;
pub use cqe::CQE;
pub use reg::RawIoVec;
pub use reg::RegView;
pub use reg::Registrar;
pub use ring::Ring;
pub use ring::RingBuilder;
pub use ring::RingView;
pub use sq::SQEIndex;
pub use sq::SqView;
pub use sq::SubmissionQueue;
pub use sqe::SQE;
pub use utils::Errno;
