//! TCP sockets.

use vstd::prelude::*;

use crate::error::{ErrorKind, IoError};
use crate::sys::{eagain, einprogress, is_einprogress, is_o_nonblock, EAGAIN};

verus! {

/// An Internet socket address.
///
/// An IP address is given as the number that its bytes make up, the first byte
/// being the most significant.
#[derive(Debug, Copy, Clone, PartialEq, Eq, Structural)]
pub enum SocketAddress {
    /// An IP version 4 address and a port.
    V4 { ipv4: u32, port: u16 },
    /// An IP version 6 address, a port, and what else such an address holds.
    V6 { ipv6: u128, port: u16, flowinfo: u32, scope_id: u32 },
}

impl SocketAddress {
    /// The address of the same family that stands for any address, with any
    /// port.
    pub open spec fn spec_unspecified(self) -> SocketAddress {
        match self {
            SocketAddress::V4 { .. } => SocketAddress::V4 { ipv4: 0, port: 0 },
            SocketAddress::V6 { .. } => SocketAddress::V6 {
                ipv6: 0,
                port: 0,
                flowinfo: 0,
                scope_id: 0,
            },
        }
    }

    /// Returns the address of the same family that stands for any address, with
    /// any port.
    pub fn unspecified(&self) -> (address: SocketAddress)
        ensures
            address == self.spec_unspecified(),
    {
        match self {
            SocketAddress::V4 { .. } => SocketAddress::V4 { ipv4: 0, port: 0 },
            SocketAddress::V6 { .. } => SocketAddress::V6 {
                ipv6: 0,
                port: 0,
                flowinfo: 0,
                scope_id: 0,
            },
        }
    }
}

/// The family of Internet sockets of IP version 4.
pub const AF_INET: i32 = 2;

/// The family of Internet sockets of IP version 6.
pub const AF_INET6: i32 = 10;

/// The number of the TCP protocol.
pub const IPPROTO_TCP: i32 = 6;

/// Whether Linux has that number, on some processor, for a socket that carries a
/// stream: most have the first, MIPS the second.
pub open spec fn is_sock_stream(socket_type: i32) -> bool {
    socket_type == 1 || socket_type == 2
}

/// Whether Linux has that number, on some processor, for the flag of a socket
/// that is not passed on: most have the first, SPARC the second.
pub open spec fn is_sock_cloexec(flag: i32) -> bool {
    flag == 0x80000 || flag == 0x400000
}

/// Whether that is what setting the flag of a socket whose operations do not
/// block makes of a type, on some processor.
pub open spec fn sets_nonblock(socket_type: i32, result: i32) -> bool {
    exists|flag: i32| #[trigger] is_o_nonblock(flag) && result == socket_type | flag
}

/// Whether that is what setting the flag of a socket that is not passed on makes
/// of a type, on some processor.
pub open spec fn sets_cloexec(socket_type: i32, result: i32) -> bool {
    exists|flag: i32| #[trigger] is_sock_cloexec(flag) && result == socket_type | flag
}

/// `socket2::Domain::IPV4`, as a number: `AF_INET`, with the value that it has
/// on Linux.
#[verifier::external_body]
fn domain_ipv4() -> (domain: i32)
    ensures
        domain == AF_INET,
{
    i32::from(socket2::Domain::IPV4)
}

/// `socket2::Domain::IPV6`, as a number: `AF_INET6`, with the value that it has
/// on Linux.
#[verifier::external_body]
fn domain_ipv6() -> (domain: i32)
    ensures
        domain == AF_INET6,
{
    i32::from(socket2::Domain::IPV6)
}

/// `socket2::Protocol::TCP`, as a number: `IPPROTO_TCP`.
#[verifier::external_body]
fn protocol_tcp() -> (protocol: i32)
    ensures
        protocol == IPPROTO_TCP,
{
    i32::from(socket2::Protocol::TCP)
}

/// `socket2::Type::STREAM`, as a number: `SOCK_STREAM`.
///
/// Its value differs between the processors that Linux runs on; it is one of
/// the two that are claimed.
#[verifier::external_body]
fn type_stream() -> (socket_type: i32)
    ensures
        is_sock_stream(socket_type),
{
    i32::from(socket2::Type::STREAM)
}

/// `socket2::Type::nonblocking`, on numbers: sets `SOCK_NONBLOCK`.
///
/// The value of that flag differs between the processors that Linux runs on; it
/// is one of those of `O_NONBLOCK`.
#[verifier::external_body]
fn type_nonblocking(socket_type: i32) -> (result: i32)
    ensures
        sets_nonblock(socket_type, result),
{
    i32::from(socket2::Type::from(socket_type).nonblocking())
}

/// `socket2::Type::cloexec`, on numbers: sets `SOCK_CLOEXEC`.
///
/// The value of that flag differs between the processors that Linux runs on; it
/// is one of the two that are claimed.
#[verifier::external_body]
fn type_cloexec(socket_type: i32) -> (result: i32)
    ensures
        sets_cloexec(socket_type, result),
{
    i32::from(socket2::Type::from(socket_type).cloexec())
}

/// What a socket is created with.
#[derive(Debug, Copy, Clone, PartialEq, Eq, Structural)]
pub struct SocketOptions {
    /// The family of addresses.
    pub domain: i32,
    /// What sort of socket it is, and the flags that it starts with.
    pub socket_type: i32,
    /// The protocol, unless the rest decides it.
    pub protocol: Option<i32>,
}

/// Returns the type of a socket that carries a stream, does not block, and is
/// not passed on to programs that are started.
///
/// Which numbers it is made up of, the operating system decides.
pub fn stream_type() -> (socket_type: i32)
    ensures
        exists|stream: i32, nonblocking: i32, cloexec: i32|
            {
                &&& #[trigger] is_sock_stream(stream)
                &&& #[trigger] is_o_nonblock(nonblocking)
                &&& #[trigger] is_sock_cloexec(cloexec)
                &&& socket_type == stream | nonblocking | cloexec
            },
{
    type_cloexec(type_nonblocking(type_stream()))
}

/// The socket to connect to a TCP address with, given the type of a socket that
/// carries a stream.
pub open spec fn spec_tcp_socket(address: SocketAddress, socket_type: i32) -> SocketOptions {
    SocketOptions {
        domain: match address {
            SocketAddress::V4 { .. } => AF_INET,
            SocketAddress::V6 { .. } => AF_INET6,
        },
        socket_type,
        protocol: Some(IPPROTO_TCP),
    }
}

/// Returns what to create the socket with to connect to a TCP address, given
/// the type of a socket that carries a stream.
pub fn tcp_socket(address: &SocketAddress, socket_type: i32) -> (options: SocketOptions)
    ensures
        options == spec_tcp_socket(*address, socket_type),
{
    let domain: i32 = match address {
        SocketAddress::V4 { .. } => domain_ipv4(),
        SocketAddress::V6 { .. } => domain_ipv6(),
    };
    SocketOptions { domain, socket_type, protocol: Some(protocol_tcp()) }
}

/// How far an attempt to connect has come.
#[derive(Debug, PartialEq, Eq, Structural)]
pub struct Connect {
    /// Whether the connection has been asked for.
    pub called_connect: bool,
}

/// What to ask a socket that is being connected.
#[derive(Debug, Copy, Clone, PartialEq, Eq, Structural)]
pub enum ConnectCall {
    /// Ask for the connection.
    Connect,
    /// Ask what became of the connection.
    TakeError,
}

/// What the answer to [`ConnectCall::Connect`] amounts to, `in_progress` being
/// the error of a connection that is under way: such a connection would block.
pub open spec fn spec_connect_returned<E>(
    result: Result<(), IoError<E>>,
    in_progress: i32,
) -> Result<(), IoError<E>> {
    match result {
        Err(error) => if error.spec_raw_os_error() == Some(in_progress) {
            Err(IoError::Os { code: EAGAIN, kind: ErrorKind::WouldBlock })
        } else {
            Err(error)
        },
        Ok(()) => Ok(()),
    }
}

/// What the answer to [`ConnectCall::TakeError`] amounts to.
pub open spec fn spec_error_taken<E>(
    result: Result<Option<IoError<E>>, IoError<E>>,
) -> Result<(), IoError<E>> {
    match result {
        Ok(None) => Ok(()),
        Ok(Some(error)) => Err(error),
        Err(error) => Err(error),
    }
}

impl Connect {
    /// What to ask the socket in an attempt.
    pub open spec fn spec_call(self) -> ConnectCall {
        if self.called_connect {
            ConnectCall::TakeError
        } else {
            ConnectCall::Connect
        }
    }

    /// How far connecting has come after an attempt.
    pub open spec fn spec_called(self) -> Connect {
        Connect { called_connect: true }
    }

    /// Starts: the connection has not been asked for.
    pub fn new() -> (connect: Connect)
        ensures
            !connect.called_connect,
    {
        Connect { called_connect: false }
    }

    /// Returns what to ask the socket now.
    ///
    /// The first time this is to connect. But the second time, the socket should
    /// either be connected already, or the connection should have failed with an
    /// error: the socket is asked which.
    pub fn call(&mut self) -> (call: ConnectCall)
        ensures
            call == (if old(self).called_connect {
                ConnectCall::TakeError
            } else {
                ConnectCall::Connect
            }),
            call == old(self).spec_call(),
            final(self).called_connect,
            *final(self) == old(self).spec_called(),
    {
        if !self.called_connect {
            self.called_connect = true;
            ConnectCall::Connect
        } else {
            ConnectCall::TakeError
        }
    }
}

/// Takes the answer to [`ConnectCall::Connect`], `in_progress` being the error
/// of a connection that is under way: it becomes the usual error of an operation
/// that would block.
pub fn connect_returned_with<E>(result: Result<(), IoError<E>>, in_progress: i32) -> (outcome:
    Result<(), IoError<E>>)
    ensures
        outcome == spec_connect_returned(result, in_progress),
{
    match result {
        Err(error) => {
            let under_way: bool = match error.raw_os_error() {
                Some(code) => code == in_progress,
                None => false,
            };
            if under_way {
                Err(IoError::Os { code: eagain(), kind: ErrorKind::WouldBlock })
            } else {
                Err(error)
            }
        },
        Ok(()) => Ok(()),
    }
}

/// Takes the answer to [`ConnectCall::Connect`].
///
/// Which error is that of a connection under way, the operating system decides;
/// success is handed on, and so is any error without a number.
pub fn connect_returned<E>(result: Result<(), IoError<E>>) -> (outcome: Result<(), IoError<E>>)
    ensures
        exists|in_progress: i32|
            is_einprogress(in_progress) && outcome == #[trigger] spec_connect_returned(
                result,
                in_progress,
            ),
{
    connect_returned_with(result, einprogress())
}

impl Connect {
    /// Attempts to connect: asks the socket what is to be asked now, by `connect`
    /// the first time and by `take_error` from then on, and takes its answer.
    pub fn attempt<'a, S, E, C, T>(&mut self, socket: &'a mut S, connect: C, take_error: T) -> (outcome:
        Result<(), IoError<E>>) where
        C: FnOnce(&'a mut S) -> Result<(), IoError<E>>,
        T: FnOnce(&'a mut S) -> Result<Option<IoError<E>>, IoError<E>>,

        requires
            forall|asked: &mut S|
                *asked == *old(socket) && !old(self).called_connect ==> #[trigger] connect.requires(
                    (asked,),
                ),
            forall|asked: &mut S|
                *asked == *old(socket) && old(self).called_connect
                    ==> #[trigger] take_error.requires((asked,)),
        ensures
            final(self).called_connect,
            *final(self) == old(self).spec_called(),
            !old(self).called_connect ==> exists|
                asked: &mut S,
                answer: Result<(), IoError<E>>,
                in_progress: i32,
            |
                {
                    &&& #[trigger] connect.ensures((asked,), answer)
                    &&& *asked == *old(socket)
                    &&& *final(asked) == *final(socket)
                    &&& is_einprogress(in_progress)
                    &&& outcome == #[trigger] spec_connect_returned(answer, in_progress)
                },
            old(self).called_connect ==> exists|
                asked: &mut S,
                answer: Result<Option<IoError<E>>, IoError<E>>,
            |
                {
                    &&& #[trigger] take_error.ensures((asked,), answer)
                    &&& *asked == *old(socket)
                    &&& *final(asked) == *final(socket)
                    &&& outcome == spec_error_taken(answer)
                },
    {
        match self.call() {
            ConnectCall::Connect => connect_returned(connect(socket)),
            ConnectCall::TakeError => error_taken(take_error(socket)),
        }
    }
}

/// Takes the answer to [`ConnectCall::TakeError`].
pub fn error_taken<E>(result: Result<Option<IoError<E>>, IoError<E>>) -> (outcome: Result<
    (),
    IoError<E>,
>)
    ensures
        outcome == spec_error_taken(result),
{
    match result {
        Ok(None) => Ok(()),
        Ok(Some(error)) => Err(error),
        Err(error) => Err(error),
    }
}

} // verus!
