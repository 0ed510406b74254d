use ground::error::{ErrorKind, IoError};
use ground::io::{
    closes_after, ensure_nonblocking, incoming_item, nonblocking_flags, Async, Interest, Poll,
};
use ground::reactor::{Registration, Waiting};

const IN: u32 = libc::EPOLLIN as u32;
const OUT: u32 = libc::EPOLLOUT as u32;
const ET: u32 = libc::EPOLLET as u32;

type Error = IoError<&'static str>;

fn blocked(_: &mut u8) -> Result<u8, Error> {
    Err(IoError::Os { code: libc::EAGAIN, kind: ErrorKind::WouldBlock })
}

fn count(inner: &mut u8) -> Result<u8, Error> {
    *inner += 1;
    Ok(*inner)
}

#[test]
fn interests_have_their_events() {
    assert_eq!(Interest::Read.as_events(), IN);
    assert_eq!(Interest::Write.as_events(), OUT);
    assert_eq!(Interest::ReadWrite.as_events(), IN | OUT);
}

#[test]
fn complete_operation_is_ready() {
    let mut file: Async<u8, u32> = Async::new(7);
    let result = file.poll_nonblocking(&1, Interest::Read, count);
    assert_eq!(result, (Poll::Ready(Ok(8)), None));
    assert_eq!(*file.get_ref(), 8);
    assert!(!file.must_deregister());
    assert_eq!(file.waiter_mut().waker(Interest::Read), None);
    assert!(file.is_idle());
    assert_eq!(file.into_inner(), 8);
}

#[test]
fn failed_operation_is_ready() {
    let mut file: Async<u8, u32> = Async::new(7);
    let result = file.poll_nonblocking(&1, Interest::Read, |_| -> Result<u8, Error> {
        Err(IoError::Custom { kind: ErrorKind::Other, error: "broken" })
    });
    let error = IoError::Custom { kind: ErrorKind::Other, error: "broken" };
    assert_eq!(result, (Poll::Ready(Err(error)), None));
}

#[test]
fn blocked_operation_waits_for_its_event() {
    let mut file: Async<u8, u32> = Async::new(7);
    let result = file.poll_nonblocking(&5, Interest::Read, blocked);
    assert_eq!(result, (Poll::Pending, Some(Registration::Add)));
    assert_eq!(file.waiter_mut().waker(Interest::Read), Some(&5));
    assert_eq!(file.waiter_mut().waker(Interest::Write), None);
    assert_eq!(file.waiter_mut().register_for(), IN | ET);
    assert!(file.waiter_mut().waiting().is_on(Interest::Read));
    assert!(!file.is_idle());
    assert!(file.must_deregister());
    // It is not tried again as long as nothing has happened to it.
    let result = file.poll_nonblocking(&6, Interest::Read, count);
    assert_eq!(result, (Poll::Pending, None));
    assert_eq!(*file.get_ref(), 7);
    assert_eq!(file.waiter_mut().deliver(OUT), Waiting::nothing());
    assert_eq!(file.poll_nonblocking(&6, Interest::Read, count), (Poll::Pending, None));
    assert!(file.waiter_mut().deliver(IN).is_on(Interest::Read));
    let result = file.poll_nonblocking(&6, Interest::Read, count);
    assert_eq!(result, (Poll::Ready(Ok(8)), None));
}

#[test]
fn reading_and_writing_wait_apart() {
    let mut file: Async<u8, u32> = Async::new(7);
    file.poll_nonblocking(&5, Interest::Read, blocked);
    let result = file.poll_nonblocking(&6, Interest::Write, blocked);
    assert_eq!(result, (Poll::Pending, Some(Registration::Modify)));
    assert_eq!(file.waiter_mut().register_for(), IN | OUT | ET);
    let ended = file.waiter_mut().deliver(OUT);
    assert_eq!(ended, Waiting { read: false, write: true, read_write: false });
    let waiting = Waiting { read: true, write: false, read_write: false };
    assert_eq!(file.waiter_mut().waiting(), waiting);
    // What has been registered for once is not asked for again.
    let result = file.poll_nonblocking(&6, Interest::Write, blocked);
    assert_eq!(result, (Poll::Pending, None));
}

/// Whom to wake when those events arrive.
fn woken(file: &mut Async<u8, u32>, events: u32) -> Vec<u32> {
    let ended = file.waiter_mut().deliver(events);
    file.waiter_mut().all_to_wake(&ended).into_iter().flatten().copied().collect()
}

#[test]
fn every_blocked_task_is_woken_by_its_own_event() {
    let mut file: Async<u8, u32> = Async::new(7);
    file.poll_nonblocking(&5, Interest::Read, blocked);
    file.poll_nonblocking(&6, Interest::Write, blocked);
    assert_eq!(woken(&mut file, IN), vec![5]);
    assert_eq!(woken(&mut file, OUT), vec![6]);
    assert!(file.waiter_mut().waiting().is_nothing());

    file.poll_nonblocking(&7, Interest::ReadWrite, blocked);
    file.poll_nonblocking(&5, Interest::Read, blocked);
    file.poll_nonblocking(&6, Interest::Write, blocked);
    // What nobody waits for may be of concern to anyone.
    assert_eq!(woken(&mut file, libc::EPOLLHUP as u32), vec![5, 6, 7]);
    assert_eq!(woken(&mut file, OUT), vec![6, 7]);
    assert_eq!(woken(&mut file, IN), vec![5]);
}

#[test]
fn operation_is_tried_until_it_completes() {
    let mut file: Async<u8, u32> = Async::new(0);
    for tries in 1..=4 {
        let result = file.poll_nonblocking(&5, Interest::Read, |inner| {
            *inner += 1;
            if *inner < 4 {
                blocked(inner)
            } else {
                Ok(*inner * 10)
            }
        });
        assert_eq!(*file.get_ref(), tries);
        if tries < 4 {
            assert_eq!(result.0, Poll::Pending);
            // A poll in vain does not call it.
            assert_eq!(file.poll_nonblocking(&5, Interest::Read, count).0, Poll::Pending);
            assert_eq!(woken(&mut file, IN), vec![5]);
        } else {
            assert_eq!(result.0, Poll::Ready(Ok(40)));
        }
    }
}

#[test]
fn arrivals_add_up() {
    let mut waiting = Waiting { read: true, write: true, read_write: false };
    let mut together = waiting;
    waiting.arrived(IN);
    waiting.arrived(OUT);
    together.arrived(IN | OUT);
    assert_eq!(waiting, Waiting::nothing());
    assert_eq!(together, Waiting::nothing());
}

#[test]
fn either_event_ends_a_double_wait() {
    for event in [IN, OUT, IN | OUT] {
        let mut file: Async<u8, u32> = Async::new(7);
        let result = file.poll_nonblocking(&5, Interest::ReadWrite, blocked);
        assert_eq!(result, (Poll::Pending, Some(Registration::Add)));
        assert_eq!(file.poll_nonblocking(&5, Interest::ReadWrite, count).0, Poll::Pending);
        file.waiter_mut().deliver(event);
        let result = file.poll_nonblocking(&5, Interest::ReadWrite, count);
        assert_eq!(result, (Poll::Ready(Ok(8)), None));
    }
}

#[test]
fn an_interest_is_skipped_only_after_it_has_blocked_itself() {
    let mut file: Async<u8, u32> = Async::new(7);
    file.poll_nonblocking(&5, Interest::ReadWrite, blocked);
    assert_eq!(file.poll_nonblocking(&5, Interest::Read, count).0, Poll::Ready(Ok(8)));
    let mut file: Async<u8, u32> = Async::new(7);
    file.poll_nonblocking(&5, Interest::Read, blocked);
    assert_eq!(file.poll_nonblocking(&5, Interest::ReadWrite, count).0, Poll::Ready(Ok(8)));
}

#[test]
fn other_events_do_not_end_a_wait() {
    let mut waiting = Waiting { read: true, write: true, read_write: true };
    assert_eq!(waiting.arrived(libc::EPOLLHUP as u32), Waiting::nothing());
    assert_eq!(waiting, Waiting { read: true, write: true, read_write: true });
}

#[test]
fn wrapped_value_can_be_changed_and_taken() {
    let mut file: Async<u8, u32> = Async::new(7);
    *file.get_mut() = 9;
    file.poll_nonblocking(&5, Interest::Write, blocked);
    assert!(file.must_deregister());
    // As long as the file has not been deleted it stays registered.
    assert_eq!(file.take_inner_with(Some(-1), libc::ENOENT), Err(libc::ENOENT));
    assert!(file.take_inner(Some(-1)).is_err());
    assert!(file.has_inner());
    assert!(file.must_deregister());
    assert_eq!(file.take_inner(Some(0)), Ok(9));
    assert!(!file.has_inner());
    assert!(!file.must_deregister());
    assert_eq!(file.waiter_mut().register_for(), 0);
    assert!(file.waiter_mut().waiting().is_on(Interest::Write));
}

#[test]
fn value_that_was_never_waited_for_is_taken_at_once() {
    let mut file: Async<u8, u32> = Async::new(7);
    assert!(!file.must_deregister());
    assert_eq!(file.take_inner(None), Ok(7));
    assert!(!file.has_inner());
    assert!(!file.must_deregister());
}

#[test]
fn operation_can_lend_out_of_what_is_wrapped() {
    let mut file: Async<Vec<u8>, u32> = Async::new(vec![1, 2]);
    let (result, _) =
        file.poll_nonblocking(&1, Interest::Read, |inner| -> Result<&mut [u8], Error> {
            Ok(&mut inner[..])
        });
    match result {
        Poll::Ready(Ok(bytes)) => bytes[0] = 5,
        _ => panic!("not ready"),
    }
    assert_eq!(file.get_ref(), &vec![5, 2]);
}

#[test]
fn nonblocking_flag_is_added_once() {
    assert_eq!(nonblocking_flags(0b0101, 0b1000), Some(0b1101));
    assert_eq!(nonblocking_flags(0b1101, 0b1000), None);
    assert_eq!(ensure_nonblocking(2), Ok(Some(2 | libc::O_NONBLOCK)));
    assert_eq!(ensure_nonblocking(2 | libc::O_NONBLOCK), Ok(None));
    assert!(ensure_nonblocking(-1).is_err());
}

#[test]
fn only_a_complete_flush_closes() {
    assert!(closes_after::<u8>(&Poll::Ready(Ok(()))));
    assert!(!closes_after::<u8>(&Poll::Ready(Err(1))));
    assert!(!closes_after::<u8>(&Poll::Pending));
}

#[test]
fn incoming_connections_never_end() {
    let accepted: Poll<Result<(u8, u16), u32>> = Poll::Ready(Ok((1, 2)));
    assert_eq!(incoming_item(accepted), Poll::Ready(Some(Ok(1))));
    let accepted: Poll<Result<(u8, u16), u32>> = Poll::Ready(Err(3));
    assert_eq!(incoming_item(accepted), Poll::Ready(Some(Err(3))));
    let accepted: Poll<Result<(u8, u16), u32>> = Poll::Pending;
    assert_eq!(incoming_item(accepted), Poll::Pending);
}

#[test]
fn errors_know_their_kind_and_their_number() {
    let error: Error = IoError::Os { code: 5, kind: ErrorKind::NotFound };
    assert_eq!(error.kind(), ErrorKind::NotFound);
    assert_eq!(error.raw_os_error(), Some(5));
    let error: Error = IoError::Custom { kind: ErrorKind::InvalidData, error: "x" };
    assert_eq!(error.kind(), ErrorKind::InvalidData);
    assert_eq!(error.raw_os_error(), None);
}
