//! A lightweight `epoll` reactor.
//!
//! The reactor is a thin layer over `epoll`: it allocates nothing and locks
//! nothing. This crate holds what it decides and computes:
//!
//! * [`io`] wraps a file, tries operations on it that might block, and keeps
//!   track of those that would;
//! * [`reactor`] turns that into commands to watch files, and dispatches the
//!   events that come of them to whatever waits;
//! * [`net`] and [`unix`] tell how to create and to connect sockets;
//! * [`dns`] builds query packets and reads the addresses out of responses;
//! * [`executor`] is the main loop that drives tasks and the reactor in turn.
//!
//! None of it makes a system call. Where one has to be made, a function returns
//! what to do, and another one takes what came of it. All that is taken from the
//! operating system itself is the number of the last error of the thread, when
//! a return code says that there is one.
//!
//! # Waiting
//!
//! An operation that would block is waited for. The task's waker is kept in a
//! [`Waiter`](reactor::Waiter), one for each [`Interest`](io::Interest), and the
//! file is registered with the reactor for the events of the operation's interest.
//! Until one of those events arrives the operation is not tried again; once one
//! has arrived, the task is woken, and it is. Tasks that wait on one file with
//! different interests do not get into each other's way.

pub mod dns;
pub mod error;
pub mod executor;
pub mod io;
pub mod laws;
pub mod net;
pub mod reactor;
pub mod sys;
pub mod unix;
pub mod util;

pub use io::Async;
pub use reactor::Reactor;
