//! Numbers of the operating system.

use vstd::prelude::*;

verus! {

/// The event of a file becoming readable.
pub const EPOLLIN: u32 = 0x1;

/// The event of a file becoming writable.
pub const EPOLLOUT: u32 = 0x4;

/// The flag that asks to be told of changes alone, not of states.
pub const EPOLLET: u32 = 0x8000_0000;

/// The command to watch a file.
pub const EPOLL_CTL_ADD: i32 = 1;

/// The command to stop watching a file.
pub const EPOLL_CTL_DEL: i32 = 2;

/// The command to watch a file for other events.
pub const EPOLL_CTL_MOD: i32 = 3;

/// The error of an operation that would block.
pub const EAGAIN: i32 = 11;

/// Whether Linux has that number, on some processor, for the error of a
/// connection that is under way: most have the first, MIPS the second, and SPARC
/// the third.
pub open spec fn is_einprogress(code: i32) -> bool {
    code == 115 || code == 150 || code == 36
}

/// Whether Linux has that number, on some processor, for the flag of a file
/// whose operations do not block: most have the first, MIPS the second, and
/// SPARC the third.
pub open spec fn is_o_nonblock(flag: i32) -> bool {
    flag == 0x800 || flag == 0x80 || flag == 0x4000
}

/// `libc::EPOLLIN`: the value that it has on Linux.
#[verifier::external_body]
pub(crate) fn epollin() -> (events: u32)
    ensures
        events == EPOLLIN,
{
    libc::EPOLLIN as u32
}

/// `libc::EPOLLOUT`: the value that it has on Linux.
#[verifier::external_body]
pub(crate) fn epollout() -> (events: u32)
    ensures
        events == EPOLLOUT,
{
    libc::EPOLLOUT as u32
}

/// `libc::EPOLLET`: the value that it has on Linux, taken for a number without
/// a sign.
#[verifier::external_body]
pub(crate) fn epollet() -> (events: u32)
    ensures
        events == EPOLLET,
{
    libc::EPOLLET as u32
}

/// `libc::EPOLL_CTL_ADD`: the value that it has on Linux.
#[verifier::external_body]
pub(crate) fn epoll_ctl_add() -> (command: i32)
    ensures
        command == EPOLL_CTL_ADD,
{
    libc::EPOLL_CTL_ADD
}

/// `libc::EPOLL_CTL_MOD`: the value that it has on Linux.
#[verifier::external_body]
pub(crate) fn epoll_ctl_mod() -> (command: i32)
    ensures
        command == EPOLL_CTL_MOD,
{
    libc::EPOLL_CTL_MOD
}

/// `libc::EPOLL_CTL_DEL`: the value that it has on Linux.
#[verifier::external_body]
pub(crate) fn epoll_ctl_del() -> (command: i32)
    ensures
        command == EPOLL_CTL_DEL,
{
    libc::EPOLL_CTL_DEL
}

/// `libc::EAGAIN`: the value that it has on Linux.
#[verifier::external_body]
pub(crate) fn eagain() -> (code: i32)
    ensures
        code == EAGAIN,
{
    libc::EAGAIN
}

/// `libc::EINPROGRESS`: the error of a connection that is under way.
///
/// Its value differs between the processors that Linux runs on; it is one of
/// the three that are claimed.
#[verifier::external_body]
pub(crate) fn einprogress() -> (code: i32)
    ensures
        is_einprogress(code),
{
    libc::EINPROGRESS
}

/// `libc::O_NONBLOCK`: the flag of a file whose operations do not block.
///
/// Its value differs between the processors that Linux runs on; it is one of
/// the three that are claimed.
#[verifier::external_body]
pub(crate) fn o_nonblock() -> (flag: i32)
    ensures
        is_o_nonblock(flag),
{
    libc::O_NONBLOCK
}

} // verus!
