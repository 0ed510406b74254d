//! Unix sockets.

use vstd::prelude::*;

use crate::net::SocketOptions;

verus! {

/// The family of Unix sockets.
pub const AF_UNIX: i32 = 1;

/// `socket2::Domain::UNIX`, as a number: `AF_UNIX`, with the value that it has
/// on Linux.
#[verifier::external_body]
fn domain_unix() -> (domain: i32)
    ensures
        domain == AF_UNIX,
{
    i32::from(socket2::Domain::UNIX)
}

/// The socket to connect to a Unix socket with, given the type of a socket that
/// carries a stream.
pub open spec fn spec_unix_socket(socket_type: i32) -> SocketOptions {
    SocketOptions { domain: AF_UNIX, socket_type, protocol: None }
}

/// Returns what to create the socket with to connect to a Unix socket, given the
/// type of a socket that carries a stream.
pub fn unix_socket(socket_type: i32) -> (options: SocketOptions)
    ensures
        options == (SocketOptions { domain: AF_UNIX, socket_type, protocol: None }),
        options == spec_unix_socket(socket_type),
{
    SocketOptions { domain: domain_unix(), socket_type, protocol: None }
}

} // verus!
