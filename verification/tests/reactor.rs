use ground::executor::{run, Happened, Todo};
use ground::io::Interest;
use ground::reactor::{Control, Event, Reactor, Registration, Wait, Waiter, Waiting};
use ground::util::{cvt, cvt_with};

#[test]
fn return_codes_are_converted() {
    assert_eq!(cvt(0), Ok(0));
    assert_eq!(cvt(7), Ok(7));
    assert!(cvt(-1).is_err());
    assert_eq!(cvt_with(-1, libc::EBADF), Err(libc::EBADF));
    assert_eq!(cvt_with(3, libc::EBADF), Ok(3));
}

#[test]
fn error_is_the_last_one_of_the_thread() {
    assert!(std::path::Path::new("/no/such/file").read_link().is_err());
    assert_eq!(cvt(-1), Err(libc::ENOENT));
}

#[test]
fn registrations_become_commands() {
    let reactor = Reactor::new(42);
    let mut waiter: Waiter<u32> = Waiter::new();
    assert_eq!(waiter.waiting(), Waiting::nothing());
    assert_eq!(waiter.ensure_registered(Interest::Read), Some(Registration::Add));
    let events = (libc::EPOLLIN as u32) | (libc::EPOLLET as u32);
    let control = reactor.add(3, &waiter, 99);
    let event = Some(Event { events, data: 99 });
    assert_eq!(control, Control { epfd: 42, command: libc::EPOLL_CTL_ADD, fd: 3, event });
    assert_eq!(waiter.ensure_registered(Interest::Read), None);
    assert_eq!(waiter.ensure_registered(Interest::ReadWrite), Some(Registration::Modify));
    let events = events | libc::EPOLLOUT as u32;
    let control = reactor.modify(3, &waiter, 99);
    let event = Some(Event { events, data: 99 });
    assert_eq!(control, Control { epfd: 42, command: libc::EPOLL_CTL_MOD, fd: 3, event });
    assert_eq!(reactor.register(Registration::Modify, 3, &waiter, 99), control);
    let control = reactor.add(3, &waiter, 99);
    assert_eq!(reactor.register(Registration::Add, 3, &waiter, 99), control);
    assert_eq!(waiter.ensure_registered(Interest::Write), None);
    let control = reactor.delete(3);
    assert_eq!(control, Control { epfd: 42, command: libc::EPOLL_CTL_DEL, fd: 3, event: None });
}

#[test]
fn every_event_is_delivered_once() {
    let mut reactor = Reactor::new(42);
    assert_eq!(reactor.as_raw_fd(), 42);
    assert_eq!(reactor.dispatch(), Wait { epfd: 42, max_events: 512, timeout: -1 });
    assert_eq!(reactor.received(3), Ok(()));
    assert!(reactor.is_dispatching());
    let mut delivered = Vec::new();
    while let Some(index) = reactor.next_event() {
        assert!(reactor.is_dispatching());
        delivered.push(index);
    }
    assert_eq!(delivered, vec![0, 1, 2]);
    assert!(!reactor.is_dispatching());
}

#[test]
fn nothing_is_delivered_when_nothing_was_received() {
    let mut reactor = Reactor::new(1);
    assert_eq!(reactor.received(0), Ok(()));
    assert_eq!(reactor.next_event(), None);
    assert!(!reactor.is_dispatching());
}

#[test]
fn failed_wait_is_no_dispatch() {
    let mut reactor = Reactor::new(1);
    assert_eq!(reactor.received_with(-1, libc::EINTR), Err(libc::EINTR));
    assert!(!reactor.is_dispatching());
    assert!(reactor.received(-1).is_err());
    assert!(!reactor.is_dispatching());
}

#[test]
fn main_loop_waits_only_when_nothing_else_is_to_be_done() {
    assert_eq!(run(Happened::<u8>::Stalled(None)), Todo::Dispatch);
    assert_eq!(run(Happened::<u8>::Dispatched), Todo::RunTasks);
    assert_eq!(run(Happened::Stalled(Some(4u8))), Todo::Return(4));
}
