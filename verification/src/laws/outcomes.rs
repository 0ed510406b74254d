//! What holds of the values that are handed on: errors, return codes, sockets,
//! connections, and the output of the main loop.

use vstd::prelude::*;

use crate::error::{ErrorKind, IoError};
use crate::executor::{spec_run, Happened, Todo};
use crate::io::{spec_closes_after, spec_incoming_item, Poll};
use crate::net::{spec_connect_returned, spec_error_taken, spec_tcp_socket, SocketAddress};
use crate::reactor::would_block;
use crate::unix::spec_unix_socket;
use crate::util::spec_cvt;

verus! {

/// An error is of the kind that it was made with, whatever else it holds, and it
/// has a number just when the operating system gave it one.
pub proof fn law_errors_keep_what_they_are_made_with<E>(code: i32, kind: ErrorKind, error: E)
    ensures
        (IoError::<E>::Os { code, kind }).spec_kind() == kind,
        (IoError::Custom { kind, error }).spec_kind() == kind,
        (IoError::<E>::Os { code, kind }).spec_raw_os_error() == Some(code),
        (IoError::Custom { kind, error }).spec_raw_os_error() is None,
{
}

/// An operation has to be tried again just when it fails with that one kind of
/// error, however that error came about.
pub proof fn law_one_kind_of_error_blocks<R, E>(value: R, code: i32, kind: ErrorKind, error: E)
    ensures
        !would_block(Ok::<R, IoError<E>>(value)),
        would_block(Err::<R, IoError<E>>(IoError::Os { code, kind })) <==> kind
            == ErrorKind::WouldBlock,
        would_block(Err::<R, IoError<E>>(IoError::Custom { kind, error })) <==> kind
            == ErrorKind::WouldBlock,
{
}

/// A return code that is not negative is handed on, whatever the last error was;
/// for a negative one it is the last error that is, whatever the code.
pub proof fn law_return_codes_or_errors_are_handed_on(return_code: i32, os_error: i32)
    ensures
        spec_cvt(return_code, os_error) is Ok <==> return_code >= 0,
        spec_cvt(return_code, os_error) matches Ok(code) ==> code == return_code,
        spec_cvt(return_code, os_error) matches Err(code) ==> code == os_error,
{
}

/// Every connection that is accepted is handed out, and every error is; only as
/// long as there is neither, there is nothing to hand out. There is no end.
pub proof fn law_every_connection_is_handed_out<S, A, E>(accepted: Poll<Result<(S, A), E>>)
    ensures
        spec_incoming_item(accepted) is Pending <==> accepted is Pending,
        spec_incoming_item(accepted) matches Poll::Ready(item) ==> {
            &&& item matches Some(result)
            &&& result is Ok <==> accepted->Ready_0 is Ok
            &&& result matches Ok(stream) ==> stream == accepted->Ready_0->Ok_0.0
            &&& result matches Err(error) ==> error == accepted->Ready_0->Err_0
        },
{
}

/// The address that stands for any one is of the same family, and all of it is
/// zero; addresses of one family have the same.
pub proof fn law_unspecified_address_is_all_zero(address: SocketAddress)
    ensures
        address.spec_unspecified() is V4 <==> address is V4,
        address.spec_unspecified() matches SocketAddress::V4 { ipv4, port } ==> ipv4 == 0 && port
            == 0,
        address.spec_unspecified() matches SocketAddress::V6 { ipv6, port, flowinfo, scope_id }
            ==> ipv6 == 0 && port == 0 && flowinfo == 0 && scope_id == 0,
{
}

/// A socket is created for the family of the address and for TCP, with the type
/// that was given; nothing else of the address matters.
pub proof fn law_socket_goes_with_the_family(
    address: SocketAddress,
    other: SocketAddress,
    socket_type: i32,
)
    ensures
        spec_tcp_socket(address, socket_type).socket_type == socket_type,
        spec_tcp_socket(address, socket_type).protocol == Some(6i32),
        spec_tcp_socket(address, socket_type).domain == 2 <==> address is V4,
        spec_tcp_socket(address, socket_type).domain == 10 <==> address is V6,
        (address is V4 <==> other is V4) <==> spec_tcp_socket(address, socket_type)
            == spec_tcp_socket(other, socket_type),
{
}

/// A Unix socket has a family of its own, the type that was given, and no protocol.
pub proof fn law_unix_socket_has_a_family_of_its_own(socket_type: i32, address: SocketAddress)
    ensures
        spec_unix_socket(socket_type).domain == 1,
        spec_unix_socket(socket_type).domain != spec_tcp_socket(address, socket_type).domain,
        spec_unix_socket(socket_type).socket_type == socket_type,
        spec_unix_socket(socket_type).protocol is None,
{
}

/// A file is closed just when all has gone out of it: not before, and not when
/// that has failed.
pub proof fn law_nothing_is_closed_too_soon<E>(error: E)
    ensures
        spec_closes_after(Poll::Ready(Ok::<(), E>(()))),
        !spec_closes_after(Poll::Ready(Err::<(), E>(error))),
        !spec_closes_after(Poll::<Result<(), E>>::Pending),
{
}

/// Only the error of a connection under way becomes another one, that of an
/// operation that would block; every other answer to asking for a connection is
/// handed on as it is.
pub proof fn law_answers_are_handed_on<E>(answer: Result<(), IoError<E>>, in_progress: i32)
    ensures
        answer is Ok ==> spec_connect_returned(answer, in_progress) is Ok,
        answer matches Err(error) ==> {
            if error.spec_raw_os_error() == Some(in_progress) {
                spec_connect_returned(answer, in_progress) == Err::<(), IoError<E>>(
                    IoError::Os { code: 11, kind: ErrorKind::WouldBlock },
                )
            } else {
                spec_connect_returned(answer, in_progress) == answer
            }
        },
{
}

/// What became of a connection is the error that the socket gives, or that asking
/// it gave: success, if there is neither.
pub proof fn law_socket_gives_the_error_of_a_connection<E>(error: IoError<E>)
    ensures
        spec_error_taken(Ok::<Option<IoError<E>>, IoError<E>>(None)) is Ok,
        spec_error_taken(Ok::<Option<IoError<E>>, IoError<E>>(Some(error))) == Err::<
            (),
            IoError<E>,
        >(error),
        spec_error_taken(Err::<Option<IoError<E>>, IoError<E>>(error)) == Err::<(), IoError<E>>(
            error,
        ),
{
}

/// The main loop returns just when the main task has left its output, and returns
/// just that; it waits for I/O just when the tasks have stalled without one; and
/// whenever it has waited, the tasks are run before it waits again.
pub proof fn law_main_loop_takes_turns<T>(happened: Happened<T>)
    ensures
        spec_run(happened) is Return <==> (happened matches Happened::Stalled(left)
            && left is Some),
        spec_run(happened) matches Todo::Return(output) ==> happened == Happened::Stalled(
            Some(output),
        ),
        spec_run(happened) is Dispatch <==> (happened matches Happened::Stalled(left)
            && left is None),
        spec_run(happened) is RunTasks <==> happened is Dispatched,
{
}

} // verus!
