//! Waiting for I/O events.

use vstd::prelude::*;

use crate::error::{ErrorKind, IoError};
use crate::io::{Interest, Poll};
use crate::sys::{epoll_ctl_add, epoll_ctl_del, epoll_ctl_mod, epollet, EPOLLET};
use crate::sys::{EPOLL_CTL_ADD, EPOLL_CTL_DEL, EPOLL_CTL_MOD};
use crate::util::{cvt, cvt_with};

verus! {

/// How many events are received at a time.
pub const MAX_EVENTS: usize = 512;

/// The time to wait, for waiting until there is an event.
pub const FOREVER: i32 = -1;

/// Which operations are waiting: those that could not be completed, and for
/// which no event has arrived since.
#[derive(Debug, Copy, Clone, PartialEq, Eq, Structural)]
pub struct Waiting {
    /// An operation that waits for the file to become readable.
    pub read: bool,
    /// An operation that waits for the file to become writable.
    pub write: bool,
    /// An operation that waits for the file to become readable or writable,
    /// whichever comes first.
    pub read_write: bool,
}

impl Waiting {
    /// Whether an operation with that interest is waiting.
    pub open spec fn on(self, interest: Interest) -> bool {
        match interest {
            Interest::Read => self.read,
            Interest::Write => self.write,
            Interest::ReadWrite => self.read_write,
        }
    }

    /// The same, but with an operation with that interest waiting too.
    pub open spec fn with(self, interest: Interest) -> Waiting {
        match interest {
            Interest::Read => Waiting { read: true, ..self },
            Interest::Write => Waiting { write: true, ..self },
            Interest::ReadWrite => Waiting { read_write: true, ..self },
        }
    }

    /// What waits on when `events` have arrived: no operation that one of them
    /// is for.
    pub open spec fn after(self, events: u32) -> Waiting {
        Waiting {
            read: self.read && events & Interest::Read.events() == 0,
            write: self.write && events & Interest::Write.events() == 0,
            read_write: self.read_write && events & Interest::ReadWrite.events() == 0,
        }
    }

    /// Which waits end when `events` have arrived: those that one of them is for.
    pub open spec fn ended(self, events: u32) -> Waiting {
        Waiting {
            read: self.read && events & Interest::Read.events() != 0,
            write: self.write && events & Interest::Write.events() != 0,
            read_write: self.read_write && events & Interest::ReadWrite.events() != 0,
        }
    }

    /// The state in which nothing is waiting.
    pub open spec fn spec_nothing() -> Waiting {
        Waiting { read: false, write: false, read_write: false }
    }

    /// Returns the state in which nothing is waiting.
    pub fn nothing() -> (waiting: Waiting)
        ensures
            waiting == Waiting::spec_nothing(),
            forall|interest: Interest| !waiting.on(interest),
    {
        Waiting { read: false, write: false, read_write: false }
    }

    /// Tells whether an operation with that interest is waiting.
    pub fn is_on(&self, interest: Interest) -> (waiting: bool)
        ensures
            waiting == self.on(interest),
    {
        match interest {
            Interest::Read => self.read,
            Interest::Write => self.write,
            Interest::ReadWrite => self.read_write,
        }
    }

    /// Notes that an operation with that interest is waiting.
    pub fn start(&mut self, interest: Interest)
        ensures
            *final(self) == old(self).with(interest),
    {
        match interest {
            Interest::Read => {
                self.read = true;
            },
            Interest::Write => {
                self.write = true;
            },
            Interest::ReadWrite => {
                self.read_write = true;
            },
        }
    }

    /// Tells whether nothing is waiting.
    pub fn is_nothing(&self) -> (nothing: bool)
        ensures
            nothing == (*self == Waiting::spec_nothing()),
            nothing == (forall|interest: Interest| !self.on(interest)),
    {
        proof {
            assert(self.read ==> self.on(Interest::Read));
            assert(self.write ==> self.on(Interest::Write));
            assert(self.read_write ==> self.on(Interest::ReadWrite));
        }
        !self.read && !self.write && !self.read_write
    }

    /// Notes that `events` have arrived, and returns which waits have ended with
    /// that.
    pub fn arrived(&mut self, events: u32) -> (ended: Waiting)
        ensures
            *final(self) == old(self).after(events),
            ended == old(self).ended(events),
    {
        let before: Waiting = *self;
        self.read = before.read && events & Interest::Read.as_events() == 0;
        self.write = before.write && events & Interest::Write.as_events() == 0;
        self.read_write = before.read_write && events & Interest::ReadWrite.as_events() == 0;
        Waiting {
            read: before.read && !self.read,
            write: before.write && !self.write,
            read_write: before.read_write && !self.read_write,
        }
    }
}

/// The waker that a reference to one stands for.
pub open spec fn referred<W>(waker: Option<&W>) -> Option<W> {
    match waker {
        Some(kept) => Some(*kept),
        None => None,
    }
}

/// The wakers of the tasks that wait, or have waited, one for each interest:
/// tasks that wait for different things on one file are woken apart.
#[derive(Debug)]
pub struct Wakers<W> {
    /// Whom to wake when the file becomes readable.
    pub read: Option<W>,
    /// Whom to wake when the file becomes writable.
    pub write: Option<W>,
    /// Whom to wake when the file becomes readable or writable.
    pub read_write: Option<W>,
}

impl<W> Wakers<W> {
    /// The waker that is kept for an interest.
    pub open spec fn of(self, interest: Interest) -> Option<W> {
        match interest {
            Interest::Read => self.read,
            Interest::Write => self.write,
            Interest::ReadWrite => self.read_write,
        }
    }

    /// The state in which no waker is kept.
    pub open spec fn spec_nobody() -> Wakers<W> {
        Wakers { read: None, write: None, read_write: None }
    }

    /// Returns the state in which no waker is kept.
    pub fn nobody() -> (wakers: Wakers<W>)
        ensures
            wakers == Wakers::<W>::spec_nobody(),
    {
        Wakers { read: None, write: None, read_write: None }
    }

    /// Returns the waker that is kept for an interest.
    pub fn get(&self, interest: Interest) -> (waker: Option<&W>)
        ensures
            referred(waker) == self.of(interest),
    {
        match interest {
            Interest::Read => self.read.as_ref(),
            Interest::Write => self.write.as_ref(),
            Interest::ReadWrite => self.read_write.as_ref(),
        }
    }

    /// Keeps a waker for an interest, in place of the one before.
    pub fn keep(&mut self, interest: Interest, waker: W)
        ensures
            final(self).of(interest) == Some(waker),
            forall|other: Interest|
                other != interest ==> #[trigger] final(self).of(other) == old(self).of(other),
    {
        match interest {
            Interest::Read => {
                self.read = Some(waker);
            },
            Interest::Write => {
                self.write = Some(waker);
            },
            Interest::ReadWrite => {
                self.read_write = Some(waker);
            },
        }
    }
}

/// Something waiting for events.
#[derive(Debug)]
pub struct Waiter<W> {
    /// The wakers to wake when the events arrive.
    wakers: Wakers<W>,
    /// What events we are registered for (or want to register for).
    register_for: u32,
    /// What we are actually waiting for this time.
    ///
    /// We're using edge-triggered notifications, so we won't receive
    /// notifications about some kinds of I/O even if we're registered for those
    /// I/O kinds. Say, if a socket becomes writable, but we're not interested
    /// in writing, we won't receive writability notifications after receiving
    /// it once. We may be waiting to read from this socket instead.
    waiting: Waiting,
}

/// A waiter: the wakers that it keeps, the events that it is registered for, and
/// the operations that are waiting.
pub struct WaiterView<W> {
    pub wakers: Wakers<W>,
    pub register_for: u32,
    pub waiting: Waiting,
}

impl<W> View for Waiter<W> {
    type V = WaiterView<W>;

    closed spec fn view(&self) -> WaiterView<W> {
        WaiterView {
            wakers: self.wakers,
            register_for: self.register_for,
            waiting: self.waiting,
        }
    }
}

/// What to ask of the reactor so that it watches a file.
#[derive(Debug, Copy, Clone, PartialEq, Eq, Structural)]
pub enum Registration {
    /// To start watching it.
    Add,
    /// To watch it for other events than before.
    Modify,
}

/// The events to be registered for so as to be told of those of an interest, and
/// of what was registered for before.
pub open spec fn registered_for(already: u32, interest: Interest) -> u32 {
    already | interest.events() | EPOLLET
}

/// What to ask of the reactor to that end, if there is anything to ask.
pub open spec fn registration(already: u32, interest: Interest) -> Option<Registration> {
    if registered_for(already, interest) == already {
        None
    } else if already == 0 {
        Some(Registration::Add)
    } else {
        Some(Registration::Modify)
    }
}

/// Being registered for an interest, on top of what was registered for before,
/// takes in the events of both, asks for changes alone, and is never nothing.
pub proof fn lemma_registered_for(already: u32, interest: Interest)
    ensures
        registered_for(already, interest) != 0,
        registered_for(already, interest) & EPOLLET == EPOLLET,
        registered_for(already, interest) & interest.events() == interest.events(),
        forall|events: u32| #[trigger]
            (already & events) == events ==> registered_for(already, interest) & events == events,
        registered_for(registered_for(already, interest), interest) == registered_for(
            already,
            interest,
        ),
{
    let events = interest.events();
    let all = already | events | 0x8000_0000u32;
    assert(all & 0x8000_0000u32 == 0x8000_0000u32 && all & events == events && all != 0 && (all
        | events | 0x8000_0000u32) == all) by (bit_vector)
        requires
            all == already | events | 0x8000_0000u32,
    ;
    assert forall|other: u32| #[trigger] (already & other) == other implies all & other
        == other by {
        assert((already & other) == other ==> (already | events | 0x8000_0000u32) & other == other)
            by (bit_vector);
    }
}

impl<W> WaiterView<W> {
    /// Whether whatever is waiting will be told: what it waits for has been
    /// registered for, so that only changes are reported, and its waker is kept.
    pub open spec fn wf(self) -> bool {
        &&& self.register_for != 0 ==> self.register_for & EPOLLET == EPOLLET
        &&& forall|interest: Interest| #[trigger]
            self.waiting.on(interest) ==> {
                &&& self.register_for & interest.events() == interest.events()
                &&& self.wakers.of(interest) is Some
            }
    }

    /// What becomes of a waiter when `events` have arrived.
    pub open spec fn delivered(self, events: u32) -> WaiterView<W> {
        WaiterView { waiting: self.waiting.after(events), ..self }
    }

    /// Whom to wake, of those with that interest, when events have arrived with
    /// which those waits have ended: whoever has waited for them; or anyone, if
    /// nobody has, since the events may tell of something else, such as an error.
    pub open spec fn to_wake(self, ended: Waiting, interest: Interest) -> Option<W> {
        if ended.on(interest) || ended == Waiting::spec_nothing() {
            self.wakers.of(interest)
        } else {
            None
        }
    }

    /// What becomes of a waiter when its file has been deleted from the reactor.
    pub open spec fn deregistered(self) -> WaiterView<W> {
        WaiterView { register_for: 0, ..self }
    }
}

impl<W: Clone> WaiterView<W> {
    /// Whether that waiter is what becomes of this one when an operation with
    /// that interest, of the task of that waker, would block: the waker is kept
    /// for that interest, those for other interests stay, and the wait is on.
    pub open spec fn blocked(self, waker: W, interest: Interest, after: WaiterView<W>) -> bool {
        &&& after.wakers.of(interest) matches Some(kept) && cloned(waker, kept)
        &&& forall|other: Interest|
            other != interest ==> #[trigger] after.wakers.of(other) == self.wakers.of(other)
        &&& after.register_for == registered_for(self.register_for, interest)
        &&& after.waiting == self.waiting.with(interest)
    }
}

impl<W> Waiter<W> {
    /// Returns a waiter that is registered for nothing and waits for nothing.
    pub fn new() -> (waiter: Waiter<W>)
        ensures
            waiter@.wf(),
            waiter@ == (WaiterView {
                wakers: Wakers::<W>::spec_nobody(),
                register_for: 0,
                waiting: Waiting::spec_nothing(),
            }),
    {
        Waiter { wakers: Wakers::nobody(), register_for: 0, waiting: Waiting::nothing() }
    }

    /// Returns the events that we are registered for.
    pub fn register_for(&self) -> (events: u32)
        ensures
            events == self@.register_for,
    {
        self.register_for
    }

    /// Returns which operations are waiting.
    pub fn waiting(&self) -> (waiting: Waiting)
        ensures
            waiting == self@.waiting,
    {
        self.waiting
    }

    /// Returns the waker that is kept for an interest: that of the last task
    /// that has waited with it, if there has been one.
    pub fn waker(&self, interest: Interest) -> (waker: Option<&W>)
        ensures
            referred(waker) == self@.wakers.of(interest),
    {
        self.wakers.get(interest)
    }

    /// Returns the waker to wake, of those with that interest, when events have
    /// been delivered with which those waits have ended.
    pub fn to_wake(&self, ended: &Waiting, interest: Interest) -> (waker: Option<&W>)
        ensures
            referred(waker) == self@.to_wake(*ended, interest),
    {
        if ended.is_on(interest) || ended.is_nothing() {
            self.wakers.get(interest)
        } else {
            None
        }
    }

    /// Returns all the wakers to wake when events have been delivered with which
    /// those waits have ended: those that wait to read, to write, and to read or
    /// write.
    pub fn all_to_wake(&self, ended: &Waiting) -> (wakers: [Option<&W>; 3])
        ensures
            referred(wakers@[0]) == self@.to_wake(*ended, Interest::Read),
            referred(wakers@[1]) == self@.to_wake(*ended, Interest::Write),
            referred(wakers@[2]) == self@.to_wake(*ended, Interest::ReadWrite),
    {
        [
            self.to_wake(ended, Interest::Read),
            self.to_wake(ended, Interest::Write),
            self.to_wake(ended, Interest::ReadWrite),
        ]
    }

    /// Ensures we are registered for the given interest: notes what to be
    /// registered for, and returns what to ask of the reactor, if anything.
    pub fn ensure_registered(&mut self, interest: Interest) -> (asked: Option<Registration>)
        ensures
            old(self)@.wf() ==> final(self)@.wf(),
            asked == registration(old(self)@.register_for, interest),
            final(self)@ == (WaiterView {
                register_for: registered_for(old(self)@.register_for, interest),
                ..old(self)@
            }),
    {
        proof {
            lemma_registered_for(self.register_for, interest);
        }
        let already_registered: u32 = self.register_for;
        let register_for: u32 = already_registered | interest.as_events() | epollet();
        if register_for == already_registered {
            // Nothing to do.
            return None;
        }
        self.register_for = register_for;
        if already_registered == 0 {
            Some(Registration::Add)
        } else {
            Some(Registration::Modify)
        }
    }

    /// Takes note that `events` have arrived, and returns which waits have ended
    /// with that: whom to wake, [`all_to_wake`](Waiter::all_to_wake) tells.
    pub fn deliver(&mut self, events: u32) -> (ended: Waiting)
        ensures
            old(self)@.wf() ==> final(self)@.wf(),
            final(self)@ == old(self)@.delivered(events),
            ended == old(self)@.waiting.ended(events),
            forall|interest: Interest| #[trigger]
                ended.on(interest) <==> old(self)@.waiting.on(interest) && events
                    & interest.events() != 0,
            old(self)@.wf() ==> forall|interest: Interest| #[trigger]
                ended.on(interest) ==> final(self)@.wakers.of(interest) is Some,
    {
        proof {
            lemma_delivered_stays_wf(self@, events);
        }
        // We've received this I/O, so we're no longer waiting for it.
        let ended = self.waiting.arrived(events);
        proof {
            assert forall|interest: Interest| old(self)@.wf() && #[trigger] ended.on(
                interest,
            ) implies self@.wakers.of(interest) is Some by {
                assert(old(self)@.waiting.on(interest));
            }
        }
        ended
    }

    /// Takes note that the file has been deleted from the reactor. Whatever waits
    /// is not told any more, so this is for when the file is given up.
    pub(crate) fn deregistered(&mut self)
        ensures
            final(self)@ == old(self)@.deregistered(),
    {
        self.register_for = 0;
    }
}

/// Whether an operation has to be tried again later.
pub open spec fn would_block<R, E>(outcome: Result<R, IoError<E>>) -> bool {
    outcome matches Err(error) && error.spec_kind() == ErrorKind::WouldBlock
}

/// Whether trying an operation with that outcome, for the task of that waker,
/// has that result, and leaves that of a waiter. One that would block is waited
/// for, and the reactor is asked to watch the file, if it does not yet; any other
/// outcome is handed on.
pub open spec fn settled<W: Clone, R, E>(
    before: WaiterView<W>,
    waker: W,
    interest: Interest,
    outcome: Result<R, IoError<E>>,
    result: (Poll<Result<R, IoError<E>>>, Option<Registration>),
    after: WaiterView<W>,
) -> bool {
    if would_block(outcome) {
        &&& result.0 is Pending
        &&& result.1 == registration(before.register_for, interest)
        &&& before.blocked(waker, interest, after)
    } else {
        &&& result.0 == Poll::Ready(outcome)
        &&& result.1 is None
        &&& after == before
    }
}

impl<W: Clone> Waiter<W> {
    /// Takes the outcome of an operation.
    ///
    /// One that would block is waited for: the waker is kept, and what there is
    /// to ask of the reactor is returned. Any other outcome is handed on.
    pub fn settle<R, E>(
        &mut self,
        waker: &W,
        interest: Interest,
        outcome: Result<R, IoError<E>>,
    ) -> (result: (Poll<Result<R, IoError<E>>>, Option<Registration>))
        ensures
            old(self)@.wf() ==> final(self)@.wf(),
            settled(old(self)@, *waker, interest, outcome, result, final(self)@),
            result.0 is Ready ==> result.0 == Poll::Ready(outcome) && final(self)@ == old(self)@,
            result.0 is Pending <==> would_block(outcome),
    {
        match outcome {
            Err(error) => if error.kind() == ErrorKind::WouldBlock {
                self.wakers.keep(interest, waker.clone());
                self.waiting.start(interest);
                let asked = self.ensure_registered(interest);
                proof {
                    if old(self)@.wf() {
                        lemma_blocked_stays_wf(old(self)@, *waker, interest, self@);
                    }
                }
                (Poll::Pending, asked)
            } else {
                (Poll::Ready(Err(error)), None)
            },
            Ok(value) => (Poll::Ready(Ok(value)), None),
        }
    }
}

/// What waits will be told when one more operation would block.
pub proof fn lemma_blocked_stays_wf<W: Clone>(
    before: WaiterView<W>,
    waker: W,
    interest: Interest,
    after: WaiterView<W>,
)
    requires
        before.wf(),
        before.blocked(waker, interest, after),
    ensures
        after.wf(),
{
    lemma_registered_for(before.register_for, interest);
    assert forall|other: Interest| #[trigger] after.waiting.on(other) implies after.register_for
        & other.events() == other.events() && after.wakers.of(other) is Some by {
        if other != interest {
            assert(before.waiting.on(other));
        }
    }
}

/// What waits will be told when events have arrived for others.
pub proof fn lemma_delivered_stays_wf<W>(before: WaiterView<W>, events: u32)
    ensures
        before.wf() ==> before.delivered(events).wf(),
{
    let after = before.delivered(events);
    if before.wf() {
        assert forall|other: Interest| #[trigger] after.waiting.on(other) implies after.register_for
            & other.events() == other.events() && after.wakers.of(other) is Some by {
            assert(before.waiting.on(other));
        }
    }
}

/// An event, or what to be told of: which events, and the number by which
/// whoever waits for them is found again.
#[derive(Debug, Copy, Clone, PartialEq, Eq, Structural)]
pub struct Event {
    pub events: u32,
    pub data: u64,
}

/// A command that changes what files a reactor watches.
#[derive(Debug, Copy, Clone, PartialEq, Eq, Structural)]
pub struct Control {
    /// The underlying epoll file descriptor.
    pub epfd: i32,
    /// What to do.
    pub command: i32,
    /// To which file.
    pub fd: i32,
    /// For which events, unless the file is not to be watched any more.
    pub event: Option<Event>,
}

/// What to wait for events with.
#[derive(Debug, Copy, Clone, PartialEq, Eq, Structural)]
pub struct Wait {
    /// The underlying epoll file descriptor.
    pub epfd: i32,
    /// How many events to receive at most.
    pub max_events: usize,
    /// How long to wait, in milliseconds: forever, if negative.
    pub timeout: i32,
}

/// How far dispatching has come: which of the received events is next, and how
/// many there are.
#[derive(Debug, Copy, Clone, PartialEq, Eq, Structural)]
pub struct Progress {
    pub next: usize,
    pub count: usize,
}

/// A reactor to receive I/O readiness notifications.
#[derive(Debug)]
pub struct Reactor {
    /// The underlying epoll file descriptor.
    epfd: i32,
    /// How far we've come, if we're currently dispatching received events.
    dispatching: Option<Progress>,
}

/// A reactor: its epoll file descriptor, and how far dispatching has come, if
/// received events are being dispatched.
pub struct ReactorView {
    pub epfd: i32,
    pub dispatching: Option<Progress>,
}

impl View for Reactor {
    type V = ReactorView;

    closed spec fn view(&self) -> ReactorView {
        ReactorView { epfd: self.epfd, dispatching: self.dispatching }
    }
}

impl ReactorView {
    /// Whether received events are being dispatched.
    pub open spec fn is_dispatching(self) -> bool {
        self.dispatching is Some
    }

    /// What the reactor waits for events with.
    pub open spec fn wait(self) -> Wait {
        Wait { epfd: self.epfd, max_events: MAX_EVENTS, timeout: FOREVER }
    }

    /// What becomes of the reactor when so many events have been received: they
    /// are to be dispatched, from the first one on.
    pub open spec fn received(self, count: i32) -> ReactorView {
        ReactorView {
            epfd: self.epfd,
            dispatching: Some(Progress { next: 0, count: count as usize }),
        }
    }

    /// The dispatching stands within what was received.
    pub open spec fn wf(self) -> bool {
        self.dispatching matches Some(progress) ==> progress.next <= progress.count <= MAX_EVENTS
    }
}

/// The command that asks of a reactor to watch a file for `event`.
pub open spec fn registering(
    reactor: ReactorView,
    asked: Registration,
    fd: i32,
    event: Event,
) -> Control {
    Control {
        epfd: reactor.epfd,
        command: match asked {
            Registration::Add => EPOLL_CTL_ADD,
            Registration::Modify => EPOLL_CTL_MOD,
        },
        fd,
        event: Some(event),
    }
}

/// The command that asks of a reactor not to watch a file any more.
pub open spec fn deleting(reactor: ReactorView, fd: i32) -> Control {
    Control { epfd: reactor.epfd, command: EPOLL_CTL_DEL, fd, event: None }
}

impl Reactor {
    /// Creates a new reactor, given the epoll file descriptor.
    pub fn new(epfd: i32) -> (reactor: Reactor)
        ensures
            reactor@ == (ReactorView { epfd, dispatching: None }),
            reactor@.wf(),
    {
        Reactor { epfd, dispatching: None }
    }

    /// Gets the file descriptor backing this reactor.
    pub fn as_raw_fd(&self) -> (fd: i32)
        ensures
            fd == self@.epfd,
    {
        self.epfd
    }

    /// Tells whether received events are being dispatched.
    pub fn is_dispatching(&self) -> (dispatching: bool)
        ensures
            dispatching == self@.is_dispatching(),
    {
        self.dispatching.is_some()
    }

    /// Returns the command that adds a file to the reactor, for the events that
    /// the waiter is registered for.
    ///
    /// `data` is the number that comes back with each of the events.
    pub fn add<W>(&self, fd: i32, waiter: &Waiter<W>, data: u64) -> (control: Control)
        ensures
            control == registering(
                self@,
                Registration::Add,
                fd,
                Event { events: waiter@.register_for, data },
            ),
            control == (Control {
                epfd: self@.epfd,
                command: EPOLL_CTL_ADD,
                fd,
                event: Some(Event { events: waiter@.register_for, data }),
            }),
    {
        Control {
            epfd: self.epfd,
            command: epoll_ctl_add(),
            fd,
            event: Some(Event { events: waiter.register_for, data }),
        }
    }

    /// Returns the command that modifies the events that a file is registered
    /// for.
    pub fn modify<W>(&self, fd: i32, waiter: &Waiter<W>, data: u64) -> (control: Control)
        ensures
            control == registering(
                self@,
                Registration::Modify,
                fd,
                Event { events: waiter@.register_for, data },
            ),
            control == (Control {
                epfd: self@.epfd,
                command: EPOLL_CTL_MOD,
                fd,
                event: Some(Event { events: waiter@.register_for, data }),
            }),
    {
        Control {
            epfd: self.epfd,
            command: epoll_ctl_mod(),
            fd,
            event: Some(Event { events: waiter.register_for, data }),
        }
    }

    /// Returns the command that has a file watched for the events that the waiter
    /// is registered for, as it was asked for.
    pub fn register<W>(
        &self,
        asked: Registration,
        fd: i32,
        waiter: &Waiter<W>,
        data: u64,
    ) -> (control: Control)
        ensures
            control == registering(
                self@,
                asked,
                fd,
                Event { events: waiter@.register_for, data },
            ),
            control.epfd == self@.epfd,
            control.fd == fd,
            control.event == Some(Event { events: waiter@.register_for, data }),
    {
        match asked {
            Registration::Add => self.add(fd, waiter, data),
            Registration::Modify => self.modify(fd, waiter, data),
        }
    }

    /// Returns the command that deletes a file from the reactor.
    ///
    /// This is not to be done during I/O dispatch, when there could still be
    /// further events queued for this file.
    pub fn delete(&self, fd: i32) -> (control: Control)
        requires
            !self@.is_dispatching(),
        ensures
            control == deleting(self@, fd),
    {
        Control { epfd: self.epfd, command: epoll_ctl_del(), fd, event: None }
    }

    /// Starts to dispatch: returns what to wait for events with.
    pub fn dispatch(&self) -> (wait: Wait)
        requires
            !self@.is_dispatching(),
        ensures
            wait == (Wait { epfd: self@.epfd, max_events: MAX_EVENTS, timeout: FOREVER }),
            wait == self@.wait(),
    {
        Wait { epfd: self.epfd, max_events: MAX_EVENTS, timeout: FOREVER }
    }

    /// Takes the return code of the wait, and the error that goes with it.
    pub fn received_with(&mut self, return_code: i32, os_error: i32) -> (result: Result<(), i32>)
        requires
            !old(self)@.is_dispatching(),
            return_code <= MAX_EVENTS,
        ensures
            final(self)@.wf(),
            return_code < 0 ==> result == Err::<(), i32>(os_error) && final(self)@ == old(self)@,
            return_code >= 0 ==> result is Ok && final(self)@ == (ReactorView {
                epfd: old(self)@.epfd,
                dispatching: Some(Progress { next: 0, count: return_code as usize }),
            }),
            return_code >= 0 ==> final(self)@ == old(self)@.received(return_code),
    {
        match cvt_with(return_code, os_error) {
            Ok(count) => {
                self.dispatching = Some(Progress { next: 0, count: count as usize });
                Ok(())
            },
            Err(code) => Err(code),
        }
    }

    /// Takes the return code of the wait: how many events were received.
    ///
    /// The error is the one that the operating system last reported to this
    /// thread.
    pub fn received(&mut self, return_code: i32) -> (result: Result<(), i32>)
        requires
            !old(self)@.is_dispatching(),
            return_code <= MAX_EVENTS,
        ensures
            final(self)@.wf(),
            return_code < 0 ==> result is Err && final(self)@ == old(self)@,
            return_code >= 0 ==> result is Ok && final(self)@ == (ReactorView {
                epfd: old(self)@.epfd,
                dispatching: Some(Progress { next: 0, count: return_code as usize }),
            }),
            return_code >= 0 ==> final(self)@ == old(self)@.received(return_code),
    {
        match cvt(return_code) {
            Ok(_) => self.received_with(return_code, 0),
            Err(code) => self.received_with(return_code, code),
        }
    }

    /// Returns which of the received events to deliver next, or `None` when
    /// all have been delivered: dispatching is over then.
    pub fn next_event(&mut self) -> (index: Option<usize>)
        requires
            old(self)@.wf(),
            old(self)@.is_dispatching(),
        ensures
            final(self)@.wf(),
            (index, final(self)@) == next_event(old(self)@),
    {
        match self.dispatching {
            Some(progress) => if progress.next < progress.count {
                self.dispatching = Some(
                    Progress { next: progress.next + 1, count: progress.count },
                );
                Some(progress.next)
            } else {
                self.dispatching = None;
                None
            },
            None => None,
        }
    }
}

/// Which event comes next in dispatching, and what state that leads to.
pub open spec fn next_event(reactor: ReactorView) -> (Option<usize>, ReactorView) {
    match reactor.dispatching {
        Some(progress) => if progress.next < progress.count {
            (
                Some(progress.next),
                ReactorView {
                    epfd: reactor.epfd,
                    dispatching: Some(
                        Progress { next: (progress.next + 1) as usize, count: progress.count },
                    ),
                },
            )
        } else {
            (None, ReactorView { epfd: reactor.epfd, dispatching: None })
        },
        None => (None, reactor),
    }
}

} // verus!
