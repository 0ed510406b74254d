use ground::error::{ErrorKind, IoError};
use ground::net::{
    connect_returned, connect_returned_with, error_taken, stream_type, tcp_socket, Connect,
    ConnectCall, SocketAddress, SocketOptions,
};
use ground::unix::unix_socket;

type Error = IoError<&'static str>;

fn os(code: i32) -> Error {
    IoError::Os { code, kind: ErrorKind::Other }
}

fn would_block() -> Error {
    IoError::Os { code: libc::EAGAIN, kind: ErrorKind::WouldBlock }
}

#[test]
fn sockets_are_created_for_their_addresses() {
    let socket_type = stream_type();
    assert_eq!(socket_type, libc::SOCK_STREAM | libc::SOCK_NONBLOCK | libc::SOCK_CLOEXEC);
    let v4 = SocketAddress::V4 { ipv4: 1, port: 80 };
    let v6 = SocketAddress::V6 { ipv6: 1, port: 80, flowinfo: 0, scope_id: 0 };
    let protocol = Some(libc::IPPROTO_TCP);
    let options = SocketOptions { domain: libc::AF_INET, socket_type, protocol };
    assert_eq!(tcp_socket(&v4, socket_type), options);
    let options = SocketOptions { domain: libc::AF_INET6, socket_type, protocol };
    assert_eq!(tcp_socket(&v6, socket_type), options);
    let options = SocketOptions { domain: libc::AF_UNIX, socket_type, protocol: None };
    assert_eq!(unix_socket(socket_type), options);
}

#[test]
fn connection_is_asked_for_once() {
    let mut connect = Connect::new();
    assert_eq!(connect.call(), ConnectCall::Connect);
    assert_eq!(connect.call(), ConnectCall::TakeError);
    assert_eq!(connect.call(), ConnectCall::TakeError);
}

#[test]
fn connection_under_way_would_block() {
    assert_eq!(connect_returned(Err(os(libc::EINPROGRESS))), Err(would_block()));
    assert_eq!(connect_returned_with(Err(os(4)), 4), Err(would_block()));
    assert_eq!(connect_returned_with(Err(os(5)), 4), Err(os(5)));
    let custom: Error = IoError::Custom { kind: ErrorKind::Other, error: "no" };
    assert_eq!(connect_returned(Err(custom)), Err(IoError::Custom { kind: ErrorKind::Other, error: "no" }));
    assert_eq!(connect_returned::<u8>(Ok(())), Ok(()));
}

#[test]
fn error_of_a_socket_is_the_error_of_the_connection() {
    assert_eq!(error_taken::<&str>(Ok(None)), Ok(()));
    assert_eq!(error_taken(Ok(Some(os(7)))), Err(os(7)));
    assert_eq!(error_taken(Err(os(8))), Err(os(8)));
}

#[test]
fn connecting_takes_two_attempts() {
    let mut connect = Connect::new();
    let mut calls = Vec::new();
    let outcome = connect.attempt(
        &mut calls,
        |calls: &mut Vec<u8>| {
            calls.push(1);
            Err(os(libc::EINPROGRESS))
        },
        |_| panic!("asked too early"),
    );
    assert_eq!(outcome, Err(would_block()));
    let outcome = connect.attempt(
        &mut calls,
        |_: &mut Vec<u8>| -> Result<(), Error> { panic!("asked twice") },
        |calls| {
            calls.push(2);
            Ok(None)
        },
    );
    assert_eq!(outcome, Ok(()));
    assert_eq!(calls, vec![1, 2]);
}

#[test]
fn refused_connection_is_reported() {
    let mut connect = Connect::new();
    let refused = || os(libc::ECONNREFUSED);
    let outcome = connect.attempt(&mut (), |_: &mut ()| Err(refused()), |_| Ok(None));
    assert_eq!(outcome, Err(refused()));
    let mut connect = Connect::new();
    let under_way = || os(libc::EINPROGRESS);
    assert_eq!(
        connect.attempt(&mut (), |_: &mut ()| Err(under_way()), |_| Ok(None)),
        Err(would_block())
    );
    let outcome = connect.attempt(&mut (), |_: &mut ()| Ok(()), |_| Ok(Some(refused())));
    assert_eq!(outcome, Err(refused()));
}
