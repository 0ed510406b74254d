//! What holds of the reactor, of whatever waits, and of connecting, over any
//! number of steps.

use vstd::prelude::*;

pub mod outcomes;

use crate::error::{ErrorKind, IoError};
use crate::io::{polled, spec_nonblocking_flags, taken, Async, Call, Interest, Poll};
use crate::net::{spec_connect_returned, spec_error_taken, Connect, ConnectCall};
use crate::reactor::{deleting, registered_for, registering, registration, would_block};
use crate::reactor::{lemma_registered_for, next_event, Control, Event, Progress, ReactorView};
use crate::reactor::{settled, Registration, WaiterView, Waiting, Wakers};
use crate::sys::{EPOLL_CTL_ADD, EPOLL_CTL_DEL, EPOLL_CTL_MOD};
use crate::sys::{is_o_nonblock, EPOLLIN, EPOLLOUT};

verus! {

/// What a command makes of the files that an epoll instance watches, each with
/// the events that it is watched for and the number that comes back with each of
/// them: `None` where the command is refused. A
/// file can only be added that is not watched, and only one that is can be
/// modified or deleted.
pub open spec fn controlled(watched: Map<i32, Event>, control: Control) -> Option<
    Map<i32, Event>,
> {
    let known = watched.dom().contains(control.fd);
    match control.event {
        Some(event) => if (control.command == EPOLL_CTL_ADD && !known) || (control.command
            == EPOLL_CTL_MOD && known) {
            Some(watched.insert(control.fd, event))
        } else {
            None
        },
        None => if control.command == EPOLL_CTL_DEL && known {
            Some(watched.remove(control.fd))
        } else {
            None
        },
    }
}

/// Whether a file is watched for just the events that it is thought to be
/// registered for, and with the number by which its waiter is found again: for
/// none at all, if it is not watched.
pub open spec fn in_step(
    watched: Map<i32, Event>,
    fd: i32,
    register_for: u32,
    data: u64,
) -> bool {
    if register_for == 0 {
        !watched.dom().contains(fd)
    } else {
        &&& watched.dom().contains(fd)
        &&& watched[fd].events == register_for
        &&& watched[fd].data == data
    }
}

/// What is asked of the reactor for an interest is never refused, keeps what the
/// file is watched for in step with what it is thought to be registered for, and
/// changes nothing for other files. Where nothing is asked, nothing has to be.
pub proof fn law_registering_stays_in_step(
    watched: Map<i32, Event>,
    reactor: ReactorView,
    fd: i32,
    already: u32,
    interest: Interest,
    data: u64,
)
    requires
        in_step(watched, fd, already, data),
    ensures
        match registration(already, interest) {
            None => in_step(watched, fd, registered_for(already, interest), data),
            Some(asked) => {
                let event = Event { events: registered_for(already, interest), data };
                match controlled(watched, registering(reactor, asked, fd, event)) {
                    None => false,
                    Some(after) => {
                        &&& in_step(after, fd, registered_for(already, interest), data)
                        &&& forall|other: i32, register_for: u32, others_data: u64|
                            other != fd && in_step(watched, other, register_for, others_data)
                                ==> #[trigger] in_step(after, other, register_for, others_data)
                    },
                }
            },
        },
{
    lemma_registered_for(already, interest);
}

/// Deleting a file that is registered is never refused, leaves it in step with
/// being registered for nothing, and changes nothing for other files.
pub proof fn law_deleting_stays_in_step(
    watched: Map<i32, Event>,
    reactor: ReactorView,
    fd: i32,
    register_for: u32,
    data: u64,
)
    requires
        in_step(watched, fd, register_for, data),
        register_for != 0,
    ensures
        match controlled(watched, deleting(reactor, fd)) {
            None => false,
            Some(after) => {
                &&& in_step(after, fd, 0, data)
                &&& forall|other: i32, others: u32, others_data: u64|
                    other != fd && in_step(watched, other, others, others_data)
                        ==> #[trigger] in_step(after, other, others, others_data)
            },
        },
{
}

/// When a wrapped value is taken, its file is deleted from the reactor if and only
/// if it was watched, and that is never refused; then it is not watched, and the
/// other files are as before. The value is gone, which everything but dropping
/// needs, and dropping asks nothing more of the reactor.
pub proof fn law_taken_value_is_gone<T, W>(
    before: Async<T, W>,
    inner: T,
    after: Async<T, W>,
    watched: Map<i32, Event>,
    reactor: ReactorView,
    fd: i32,
    data: u64,
)
    requires
        taken(before, inner, after),
        in_step(watched, fd, before.waiter().register_for, data),
    ensures
        before.inner() == Some(inner),
        before.spec_must_deregister() <==> watched.dom().contains(fd),
        match (if before.spec_must_deregister() {
            controlled(watched, deleting(reactor, fd))
        } else {
            Some(watched)
        }) {
            None => false,
            Some(later) => {
                &&& !later.dom().contains(fd)
                &&& in_step(later, fd, after.waiter().register_for, data)
                &&& forall|other: i32, others: u32, others_data: u64|
                    other != fd && in_step(watched, other, others, others_data)
                        ==> #[trigger] in_step(later, other, others, others_data)
            },
        },
        after.inner() is None,
        !after.spec_must_deregister(),
        after.waiter().register_for == 0,
        after.waiter().waiting == before.waiter().waiting,
        after.waiter().wakers == before.waiter().wakers,
{
}

/// A command goes to the reactor's own epoll instance, is about the file that it
/// was made for, and carries just the event that it was given: the same events,
/// and all the bits of the number that is to come back with them. A command not
/// to watch a file any more carries none.
pub proof fn law_commands_carry_what_they_are_given(
    reactor: ReactorView,
    asked: Registration,
    fd: i32,
    events: u32,
    data: u64,
)
    ensures
        ({
            let control = registering(reactor, asked, fd, Event { events, data });
            &&& control.epfd == reactor.epfd
            &&& control.fd == fd
            &&& control.command == 1 <==> asked is Add
            &&& control.command == 3 <==> asked is Modify
            &&& control.event matches Some(event) && event.events == events && event.data == data
        }),
        ({
            let control = deleting(reactor, fd);
            &&& control.epfd == reactor.epfd
            &&& control.fd == fd
            &&& control.command == 2
            &&& control.event is None
        }),
{
}

/// Different numbers come back differently: from what a command carries, the
/// waiter that it was made for is found again.
pub proof fn law_waiters_are_told_apart(
    reactor: ReactorView,
    asked: Registration,
    fd: i32,
    events: u32,
    one: u64,
    other: u64,
)
    requires
        registering(reactor, asked, fd, Event { events, data: one }).event == registering(
            reactor,
            asked,
            fd,
            Event { events, data: other },
        ).event,
    ensures
        one == other,
{
}

/// What is registered for is what was registered for before, the events of the
/// interest, and that changes alone are reported: no event more, and none less.
pub proof fn law_nothing_else_is_registered_for(already: u32, interest: Interest, some: u32)
    ensures
        registered_for(already, interest) & some == 0 <==> {
            &&& already & some == 0
            &&& interest.events() & some == 0
            &&& 0x8000_0000u32 & some == 0
        },
{
    let events = interest.events();
    assert((already | events | 0x8000_0000u32) & some == 0 <==> already & some == 0 && events & some
        == 0 && 0x8000_0000u32 & some == 0) by (bit_vector);
}

/// The reactor is asked for something just when a bit is missing of what is to be
/// registered for; and it is asked to add a file just when none was registered.
pub proof fn law_asked_only_for_what_is_missing(already: u32, interest: Interest)
    ensures
        registration(already, interest) is None <==> {
            &&& already & interest.events() == interest.events()
            &&& already & 0x8000_0000u32 == 0x8000_0000u32
        },
        registration(already, interest) == Some(Registration::Add) <==> already == 0,
{
    let events = interest.events();
    assert((already | events | 0x8000_0000u32) == already <==> already & events == events && already
        & 0x8000_0000u32 == 0x8000_0000u32) by (bit_vector);
    assert(already == 0 ==> already & 0x8000_0000u32 != 0x8000_0000u32) by (bit_vector);
}

/// Reading and writing have an event of their own each, and an interest in both
/// is one in just those two.
pub proof fn law_interests_have_their_events(events: u32)
    ensures
        Interest::Read.events() == 1,
        Interest::Write.events() == 4,
        events & Interest::ReadWrite.events() == 0 <==> {
            &&& events & Interest::Read.events() == 0
            &&& events & Interest::Write.events() == 0
        },
{
    assert(events & (1u32 | 4u32) == 0 <==> events & 1 == 0 && events & 4 == 0) by (bit_vector);
}

/// Having been registered for an interest, nothing more is asked for it, nor for
/// any interest that it covers.
pub proof fn law_registered_once(already: u32, interest: Interest)
    ensures
        registration(registered_for(already, interest), interest) is None,
        registration(registered_for(already, Interest::ReadWrite), interest) is None,
{
    lemma_registered_for(already, interest);
    assert((already | (1u32 | 4u32) | 0x8000_0000u32) | 1u32 | 0x8000_0000u32 == (already | (1u32
        | 4u32) | 0x8000_0000u32)) by (bit_vector);
    assert((already | (1u32 | 4u32) | 0x8000_0000u32) | 4u32 | 0x8000_0000u32 == (already | (1u32
        | 4u32) | 0x8000_0000u32)) by (bit_vector);
}

/// An operation that would block waits from then on, whatever other operations
/// are found to block after it.
pub proof fn law_blocked_operation_waits(waiting: Waiting, interest: Interest, other: Interest)
    ensures
        waiting.with(interest).on(interest),
        waiting.with(interest).with(other).on(interest),
        other != interest ==> waiting.with(other).on(interest) == waiting.on(interest),
{
}

/// Nothing waits and no waker is kept to begin with, for any interest.
pub proof fn law_nothing_waits_to_begin_with<W>(interest: Interest)
    ensures
        !Waiting::spec_nothing().on(interest),
        Wakers::<W>::spec_nobody().of(interest) is None,
{
}

/// An operation has to be tried again just when it fails with an error of kind
/// `WouldBlock`. That and nothing else makes it wait, and leaves it pending; its
/// own interest alone starts to wait, and any other interest waits if and only if
/// it did before.
pub proof fn law_only_a_blocked_operation_waits<W: Clone, R, E>(
    before: WaiterView<W>,
    waker: W,
    interest: Interest,
    outcome: Result<R, IoError<E>>,
    result: (Poll<Result<R, IoError<E>>>, Option<Registration>),
    after: WaiterView<W>,
    some: Interest,
)
    requires
        settled(before, waker, interest, outcome, result, after),
    ensures
        result.0 is Pending <==> (outcome matches Err(error) && error.spec_kind()
            == ErrorKind::WouldBlock),
        after.waiting.on(some) <==> before.waiting.on(some) || (some == interest
            && result.0 is Pending),
        some != interest ==> after.wakers.of(some) == before.wakers.of(some),
        result.0 is Pending ==> {
            &&& after.wakers.of(interest) matches Some(kept) && cloned(waker, kept)
            &&& after.register_for & interest.events() == interest.events()
            &&& after.register_for == registered_for(before.register_for, interest)
            &&& result.1 is None <==> after.register_for == before.register_for
            &&& result.1 == Some(Registration::Add) <==> before.register_for == 0
        },
{
    lemma_registered_for(before.register_for, interest);
}

/// An operation that completes leaves no trace: its outcome is handed on as it is,
/// nothing is asked of the reactor, and no interest waits, no waker is kept and no
/// event is registered for that was not before.
pub proof fn law_completed_operation_leaves_no_wait<W: Clone, R, E>(
    before: WaiterView<W>,
    waker: W,
    interest: Interest,
    outcome: Result<R, IoError<E>>,
    result: (Poll<Result<R, IoError<E>>>, Option<Registration>),
    after: WaiterView<W>,
    some: Interest,
)
    requires
        settled(before, waker, interest, outcome, result, after),
        result.0 is Ready,
    ensures
        result.0 == Poll::Ready(outcome),
        result.1 is None,
        after.waiting.on(some) == before.waiting.on(some),
        after.wakers.of(some) == before.wakers.of(some),
        after.register_for == before.register_for,
{
}

/// An operation waits until one of the events arrives that it is interested in,
/// and no longer: then it is tried again. Other events do not end the wait.
pub proof fn law_wait_ends_with_readiness(waiting: Waiting, interest: Interest, events: u32)
    ensures
        waiting.after(events).on(interest) <==> waiting.on(interest) && events & interest.events()
            == 0,
{
}

/// Each wait either ends with the events that arrive or goes on, and not both; it
/// ends just when one of them is for it.
pub proof fn law_wait_ends_or_goes_on(waiting: Waiting, interest: Interest, events: u32)
    ensures
        waiting.on(interest) <==> waiting.ended(events).on(interest) || waiting.after(events).on(
            interest,
        ),
        !(waiting.ended(events).on(interest) && waiting.after(events).on(interest)),
        waiting.ended(events).on(interest) <==> waiting.on(interest) && events & interest.events()
            != 0,
{
}

/// The arrival of events changes what waits, and neither the wakers that are kept
/// nor what is registered for; and being deleted from the reactor changes what is
/// registered for alone.
pub proof fn law_wakers_and_registration_outlast_events<W>(
    waiter: WaiterView<W>,
    interest: Interest,
    events: u32,
)
    ensures
        waiter.delivered(events).wakers.of(interest) == waiter.wakers.of(interest),
        waiter.delivered(events).register_for == waiter.register_for,
        waiter.delivered(events).waiting.on(interest) <==> waiter.waiting.on(interest) && events
            & interest.events() == 0,
        waiter.deregistered().register_for == 0,
        waiter.deregistered().wakers == waiter.wakers,
        waiter.deregistered().waiting == waiter.waiting,
{
}

/// Whoever's wait has ended is woken, and then nobody else is; if no wait has
/// ended, everyone is who has a waker.
pub proof fn law_who_is_woken<W>(
    waiter: WaiterView<W>,
    ended: Waiting,
    interest: Interest,
    other: Interest,
)
    ensures
        ended.on(interest) ==> waiter.to_wake(ended, interest) == waiter.wakers.of(interest),
        ended.on(other) && !ended.on(interest) ==> waiter.to_wake(ended, interest) is None,
        (forall|some: Interest| !ended.on(some)) ==> waiter.to_wake(ended, interest)
            == waiter.wakers.of(interest),
{
    assert(ended.read ==> ended.on(Interest::Read));
    assert(ended.write ==> ended.on(Interest::Write));
    assert(ended.read_write ==> ended.on(Interest::ReadWrite));
}

/// An operation interested in reading and in writing is tried again when the
/// file becomes readable, and when it becomes writable.
pub proof fn law_either_event_ends_a_double_wait(waiting: Waiting, events: u32)
    requires
        events & EPOLLIN != 0 || events & EPOLLOUT != 0,
    ensures
        !waiting.after(events).on(Interest::ReadWrite),
{
    assert(events & 1 != 0 || events & 4 != 0 ==> events & (1u32 | 4u32) != 0) by (bit_vector);
}

/// Whatever waits for one of the events that have been registered for will be
/// told of it: it is registered for all the events of its interest, and its waker
/// is kept.
pub proof fn law_waiting_is_registered<W>(waiter: WaiterView<W>, interest: Interest)
    requires
        waiter.wf(),
        waiter.waiting.on(interest),
    ensures
        waiter.register_for & interest.events() == interest.events(),
        waiter.register_for != 0,
        waiter.wakers.of(interest) is Some,
{
    let register_for = waiter.register_for;
    let events = interest.events();
    assert(1u32 | 4u32 != 0) by (bit_vector);
    assert(register_for == 0 ==> register_for & events == 0) by (bit_vector);
}

/// Events that arrive one after the other end the same waits as if they had
/// arrived together.
pub proof fn law_arrivals_add_up(waiting: Waiting, first: u32, second: u32)
    ensures
        waiting.after(first).after(second) == waiting.after(first | second),
{
    assert forall|events: u32| #[trigger]
        ((first | second) & events) == 0 <==> first & events == 0 && second & events == 0 by {
        assert(((first | second) & events) == 0 <==> first & events == 0 && second & events == 0)
            by (bit_vector);
    }
}

/// A task whose operation would block is woken according to its interest, though
/// another task is found to block on the same file with another interest: the
/// wait goes on with its own waker kept, until an event of the interest ends it.
pub proof fn law_blocked_task_is_woken<W: Clone>(
    before: WaiterView<W>,
    waker: W,
    interest: Interest,
    blocked: WaiterView<W>,
    other_waker: W,
    other: Interest,
    later: WaiterView<W>,
    events: u32,
)
    requires
        before.blocked(waker, interest, blocked),
        blocked.blocked(other_waker, other, later),
        other != interest,
        events & interest.events() != 0,
    ensures
        later.waiting.on(interest),
        later.wakers.of(interest) matches Some(kept) && cloned(waker, kept),
        later.waiting.ended(events).on(interest),
        later.delivered(events).to_wake(later.waiting.ended(events), interest)
            == later.wakers.of(interest),
        !later.waiting.after(events).on(interest),
{
}

/// Something that happens to a waiter.
pub enum Moment<W> {
    /// An operation with that interest, of the task of that waker, would block.
    Blocks { waker: W, interest: Interest },
    /// Those events arrive.
    Arrives { events: u32 },
}

impl<W> Moment<W> {
    /// Whether this has nothing to do with an interest: it is not about an
    /// operation with that interest, nor about an event for one.
    pub open spec fn is_beside(self, interest: Interest) -> bool {
        match self {
            Moment::Blocks { waker: _, interest: other } => other != interest,
            Moment::Arrives { events } => events & interest.events() == 0,
        }
    }
}

/// Whether that is what a moment makes of a waiter.
pub open spec fn passes<W: Clone>(
    before: WaiterView<W>,
    moment: Moment<W>,
    after: WaiterView<W>,
) -> bool {
    match moment {
        Moment::Blocks { waker, interest } => before.blocked(waker, interest, after),
        Moment::Arrives { events } => after == before.delivered(events),
    }
}

/// Whether a waiter goes through those states, one in front of each moment and
/// one behind the last.
pub open spec fn goes_through<W: Clone>(
    states: Seq<WaiterView<W>>,
    moments: Seq<Moment<W>>,
) -> bool {
    &&& states.len() == moments.len() + 1
    &&& forall|i: int|
        0 <= i < moments.len() ==> passes(states[i], #[trigger] moments[i], states[i + 1])
}

/// A task whose operation would block is woken according to its interest,
/// whatever other tasks do, and whatever other events arrive, for as long as it
/// takes: the wait goes on with its own waker kept, until an event of the
/// interest ends it.
pub proof fn law_wait_outlasts_everything_else<W: Clone>(
    before: WaiterView<W>,
    waker: W,
    interest: Interest,
    states: Seq<WaiterView<W>>,
    moments: Seq<Moment<W>>,
    events: u32,
)
    requires
        goes_through(states, moments),
        before.blocked(waker, interest, states[0]),
        forall|i: int| 0 <= i < moments.len() ==> (#[trigger] moments[i]).is_beside(interest),
        events & interest.events() != 0,
    ensures
        states.last().waiting.on(interest),
        states.last().wakers.of(interest) matches Some(kept) && cloned(waker, kept),
        states.last().waiting.ended(events).on(interest),
        states.last().delivered(events).to_wake(states.last().waiting.ended(events), interest)
            == states.last().wakers.of(interest),
        !states.last().waiting.after(events).on(interest),
    decreases moments.len(),
{
    if moments.len() > 0 {
        let earlier = states.drop_last();
        let previous = moments.drop_last();
        assert forall|i: int| 0 <= i < previous.len() implies passes(
            earlier[i],
            #[trigger] previous[i],
            earlier[i + 1],
        ) by {
            assert(previous[i] == moments[i]);
        }
        assert forall|i: int| 0 <= i < previous.len() implies (#[trigger] previous[i]).is_beside(
            interest,
        ) by {
            assert(previous[i] == moments[i]);
        }
        law_wait_outlasts_everything_else(before, waker, interest, earlier, previous, events);
        let last = moments.len() - 1;
        assert(passes(states[last], moments[last], states[last + 1]));
        assert(moments[last].is_beside(interest));
        assert(earlier.last() == states[last]);
    }
}

/// A poll of a non-blocking operation: for which task, how the operation was
/// called, if it was, and what came of it; and the events that arrive after it.
pub struct Attempt<T, W, R, E> {
    pub before: Async<T, W>,
    pub waker: W,
    pub call: Option<Call<T, R, E>>,
    pub result: (Poll<Result<R, IoError<E>>>, Option<Registration>),
    pub after: Async<T, W>,
    pub events: u32,
}

impl<T, W: Clone, R, E> Attempt<T, W, R, E> {
    /// Whether this is what polling does.
    pub open spec fn polls(self, interest: Interest) -> bool {
        polled(self.before, self.waker, interest, self.call, self.result, self.after)
    }

    /// Whether that attempt can be the next one. Between the two there are only
    /// the events, and whatever has to do with other interests.
    pub open spec fn comes_before(self, next: Attempt<T, W, R, E>, interest: Interest) -> bool {
        next.before.waiter().waiting.on(interest) == self.after.waiter().waiting.after(
            self.events,
        ).on(interest)
    }

    /// Whether the operation was called, and would block.
    pub open spec fn would_block(self) -> bool {
        self.call matches Some(call) && would_block(call.outcome)
    }
}

/// An operation is tried until it returns something else than an error of kind
/// `WouldBlock`. When it would block each time but the last, and is polled again
/// after an event of its interest, every poll calls it once, on the wrapped
/// value; all of them but the last are pending, and the last one returns what
/// the last call did.
pub proof fn law_operation_is_tried_until_it_completes<T, W: Clone, R, E>(
    attempts: Seq<Attempt<T, W, R, E>>,
    interest: Interest,
)
    requires
        attempts.len() > 0,
        !attempts[0].before.waiter().waiting.on(interest),
        forall|i: int| 0 <= i < attempts.len() ==> (#[trigger] attempts[i]).polls(interest),
        forall|i: int|
            0 <= i < attempts.len() - 1 ==> {
                &&& (#[trigger] attempts[i]).comes_before(attempts[i + 1], interest)
                &&& attempts[i].events & interest.events() != 0
                &&& attempts[i].call is Some ==> attempts[i].would_block()
            },
        !attempts.last().would_block(),
    ensures
        forall|i: int|
            0 <= i < attempts.len() ==> {
                &&& (#[trigger] attempts[i]).call matches Some(call)
                &&& attempts[i].before.inner() == Some(call.given)
                &&& attempts[i].after.inner() == Some(call.left)
            },
        forall|i: int|
            0 <= i < attempts.len() - 1 ==> (#[trigger] attempts[i]).result.0 is Pending,
        attempts.last().call matches Some(call) && attempts.last().result.0 == Poll::Ready(
            call.outcome,
        ),
{
    assert forall|i: int| 0 <= i < attempts.len() implies !(
    #[trigger] attempts[i]).before.waiter().waiting.on(interest) by {
        if i > 0 {
            assert(attempts[i - 1].comes_before(attempts[i], interest));
        }
    }
    assert forall|i: int| 0 <= i < attempts.len() implies (#[trigger] attempts[i]).call is Some by {
        assert(attempts[i].polls(interest));
    }
    assert(attempts.last().polls(interest));
}

/// Polling calls the operation just when no wait with its interest is on; then it
/// is given the wrapped value, and what it leaves of that is what is wrapped
/// afterwards. A poll that does not call it is pending and changes nothing.
pub proof fn law_operation_is_called_unless_it_waits<T, W: Clone, R, E>(
    attempt: Attempt<T, W, R, E>,
    interest: Interest,
)
    requires
        attempt.polls(interest),
    ensures
        attempt.call is Some <==> !attempt.before.waiter().waiting.on(interest),
        attempt.call matches Some(call) ==> {
            &&& attempt.before.inner() == Some(call.given)
            &&& attempt.after.inner() == Some(call.left)
            &&& attempt.result.0 is Ready ==> attempt.result.0 == Poll::Ready(call.outcome)
            &&& attempt.result.0 is Pending <==> (call.outcome matches Err(error)
                && error.spec_kind() == ErrorKind::WouldBlock)
        },
        attempt.call is None ==> {
            &&& attempt.result.0 is Pending
            &&& attempt.result.1 is None
            &&& attempt.after.inner() == attempt.before.inner()
            &&& attempt.after.waiter() == attempt.before.waiter()
        },
{
}

/// After an operation has completed, the next poll with the same interest calls
/// it again, whether or not any event has arrived in between.
pub proof fn law_completed_operation_is_called_again<T, W: Clone, R, E>(
    attempt: Attempt<T, W, R, E>,
    next: Attempt<T, W, R, E>,
    interest: Interest,
)
    requires
        attempt.polls(interest),
        next.polls(interest),
        attempt.comes_before(next, interest),
        attempt.result.0 is Ready,
    ensures
        next.call is Some,
{
}

/// An operation that would block is not tried again before an event of its
/// interest arrives: until then polling is pending, and changes nothing.
pub proof fn law_blocked_operation_is_not_tried_in_vain<T, W: Clone, R, E>(
    attempt: Attempt<T, W, R, E>,
    next: Attempt<T, W, R, E>,
    interest: Interest,
)
    requires
        attempt.polls(interest),
        next.polls(interest),
        attempt.comes_before(next, interest),
        attempt.result.0 is Pending,
        attempt.events & interest.events() == 0,
    ensures
        next.call is None,
        next.result.0 is Pending,
        next.after.inner() == next.before.inner(),
        next.after.waiter() == next.before.waiter(),
{
}

/// The events that are delivered from that state on, in their order.
pub open spec fn deliveries(reactor: ReactorView) -> Seq<usize>
    decreases
            (match reactor.dispatching {
                Some(progress) => progress.count - progress.next,
                None => 0,
            }),
{
    match next_event(reactor).0 {
        Some(index) => seq![index] + deliveries(next_event(reactor).1),
        None => Seq::empty(),
    }
}

/// The state that dispatching ends in.
pub open spec fn dispatched(reactor: ReactorView) -> ReactorView
    decreases
            (match reactor.dispatching {
                Some(progress) => progress.count - progress.next,
                None => 0,
            }),
{
    match next_event(reactor).0 {
        Some(_) => dispatched(next_event(reactor).1),
        None => next_event(reactor).1,
    }
}

/// Of the events that are still to be delivered each is delivered once, in the
/// order in which they were received; then dispatching is over.
pub proof fn law_every_event_is_delivered_once(reactor: ReactorView, progress: Progress)
    requires
        reactor.wf(),
        reactor.dispatching == Some(progress),
    ensures
        deliveries(reactor) == Seq::new(
            (progress.count - progress.next) as nat,
            |i: int| (progress.next + i) as usize,
        ),
        dispatched(reactor) == (ReactorView { epfd: reactor.epfd, dispatching: None }),
    decreases progress.count - progress.next,
{
    let all = Seq::new(
        (progress.count - progress.next) as nat,
        |i: int| (progress.next + i) as usize,
    );
    if progress.next < progress.count {
        let next = next_event(reactor).1;
        let later = Progress { next: (progress.next + 1) as usize, count: progress.count };
        assert(next.dispatching == Some(later));
        law_every_event_is_delivered_once(next, later);
        assert(deliveries(reactor) =~= all);
    } else {
        assert(deliveries(reactor) =~= all);
    }
}

/// Of the events that were received every one is delivered once, from the first to
/// the last, in the order in which they were received; then dispatching is over,
/// and the reactor is as it was.
pub proof fn law_all_received_events_are_delivered(reactor: ReactorView, count: i32)
    requires
        reactor.dispatching is None,
        0 <= count <= 512,
    ensures
        reactor.received(count).wf(),
        deliveries(reactor.received(count)) == Seq::new(count as nat, |i: int| i as usize),
        dispatched(reactor.received(count)) == reactor,
{
    let progress = Progress { next: 0, count: count as usize };
    law_every_event_is_delivered_once(reactor.received(count), progress);
    assert(deliveries(reactor.received(count)) =~= Seq::new(count as nat, |i: int| i as usize));
}

/// The reactor waits on its own epoll instance, until there is an event, and takes
/// as many as there is room for.
pub proof fn law_reactor_waits_for_an_event(reactor: ReactorView)
    ensures
        reactor.wait().epfd == reactor.epfd,
        reactor.wait().timeout < 0,
        reactor.wait().max_events == 512,
{
}

/// As long as an event has been handed out and the end has not been told, events
/// are being dispatched: nothing can be deleted from the reactor in the meantime.
/// They are not any more just when there is no next one.
pub proof fn law_dispatching_lasts_until_the_end(reactor: ReactorView, epfd: i32)
    requires
        reactor.wf(),
        reactor.dispatching is Some,
    ensures
        reactor.is_dispatching(),
        next_event(reactor).1.wf(),
        next_event(reactor).0 is Some <==> next_event(reactor).1.is_dispatching(),
        next_event(reactor).0 matches Some(index) ==> index < 512,
        !(ReactorView { epfd, dispatching: None }).is_dispatching(),
{
}

/// A file that is registered with no reactor is idle, as long as whatever waits
/// will be told; one that is registered is not, nor is one for which any operation
/// waits.
pub proof fn law_idle_files_wait_for_nothing<T, W>(file: Async<T, W>, interest: Interest)
    ensures
        file.waiter().wf() && file.waiter().register_for == 0 ==> file.spec_is_idle(),
        file.waiter().register_for != 0 ==> !file.spec_is_idle(),
        file.waiter().waiting.on(interest) ==> !file.spec_is_idle(),
        file.spec_is_idle() ==> !file.spec_must_deregister(),
{
    if file.waiter().wf() && file.waiter().register_for == 0 {
        assert forall|some: Interest| !file.waiter().waiting.on(some) by {
            if file.waiter().waiting.on(some) {
                law_waiting_is_registered(file.waiter(), some);
            }
        }
    }
}

/// There are flags to set just when the file's operations may block: when the flag
/// is not set. Either way it is set in the end, among the flags that the file has
/// or among those to set, which are those that it has and no others besides.
pub proof fn law_flag_is_set_in_the_end(flags: i32, o_nonblock: i32)
    ensures
        spec_nonblocking_flags(flags, o_nonblock) is None <==> flags & o_nonblock != 0,
        spec_nonblocking_flags(flags, o_nonblock) matches Some(to_set) ==> {
            &&& to_set & o_nonblock == o_nonblock
            &&& to_set & !o_nonblock == flags & !o_nonblock
        },
        is_o_nonblock(o_nonblock) ==> match spec_nonblocking_flags(flags, o_nonblock) {
            Some(to_set) => to_set & o_nonblock == o_nonblock,
            None => flags & o_nonblock == o_nonblock,
        },
{
    assert((flags | o_nonblock) & o_nonblock == o_nonblock && (flags | o_nonblock) & !o_nonblock
        == flags & !o_nonblock) by (bit_vector);
    assert(flags & 0x800 == 0 || flags & 0x800 == 0x800) by (bit_vector);
    assert(flags & 0x80 == 0 || flags & 0x80 == 0x80) by (bit_vector);
    assert(flags & 0x4000 == 0 || flags & 0x4000 == 0x4000) by (bit_vector);
}

/// Setting the flags makes the file's operations not block, leaves its other
/// flags as they were, and has not to be done again.
pub proof fn law_nonblocking_flags(flags: i32, o_nonblock: i32)
    requires
        o_nonblock != 0,
    ensures
        spec_nonblocking_flags(flags, o_nonblock) matches Some(to_set) ==> {
            &&& to_set & o_nonblock == o_nonblock
            &&& to_set & !o_nonblock == flags & !o_nonblock
            &&& spec_nonblocking_flags(to_set, o_nonblock) is None
        },
{
    assert((flags | o_nonblock) & o_nonblock == o_nonblock && (flags | o_nonblock) & !o_nonblock
        == flags & !o_nonblock) by (bit_vector);
}

/// What is asked of a socket in the attempts from that state on.
pub open spec fn calls(connect: Connect, attempts: nat) -> Seq<ConnectCall>
    decreases attempts,
{
    if attempts == 0 {
        Seq::empty()
    } else {
        seq![connect.spec_call()] + calls(connect.spec_called(), (attempts - 1) as nat)
    }
}

/// However often connecting is attempted, the connection is asked for once, in
/// the first attempt; in all the others the socket is asked what became of it.
pub proof fn law_connection_is_asked_for_once(attempts: nat)
    ensures
        calls(Connect { called_connect: false }, attempts).len() == attempts,
        forall|i: int|
            0 <= i < attempts ==> #[trigger] calls(Connect { called_connect: false }, attempts)[i]
                == (if i == 0 {
                ConnectCall::Connect
            } else {
                ConnectCall::TakeError
            }),
{
    if attempts > 0 {
        lemma_later_calls((attempts - 1) as nat);
    }
}

proof fn lemma_later_calls(attempts: nat)
    ensures
        calls(Connect { called_connect: true }, attempts).len() == attempts,
        forall|i: int|
            0 <= i < attempts ==> #[trigger] calls(Connect { called_connect: true }, attempts)[i]
                == ConnectCall::TakeError,
    decreases attempts,
{
    if attempts > 0 {
        lemma_later_calls((attempts - 1) as nat);
    }
}

/// A connection that is under way is waited for, and no other answer of the
/// socket becomes a reason to wait.
pub proof fn law_connection_under_way_is_waited_for<E>(
    answer: Result<(), IoError<E>>,
    in_progress: i32,
)
    ensures
        would_block(spec_connect_returned(answer, in_progress)) <==> {
            ||| answer matches Err(error) && error.spec_raw_os_error() == Some(in_progress)
            ||| would_block(answer)
        },
        spec_connect_returned(answer, in_progress) is Ok <==> answer is Ok,
{
}

/// A connection that failed is reported as failed, with the error that the
/// socket gives; only a socket without an error is connected.
pub proof fn law_failed_connection_is_reported<E>(
    answer: Result<Option<IoError<E>>, IoError<E>>,
    error: IoError<E>,
)
    ensures
        spec_error_taken(answer) is Ok <==> (answer matches Ok(taken) && taken is None),
        answer == Ok::<Option<IoError<E>>, IoError<E>>(Some(error)) || answer == Err::<
            Option<IoError<E>>,
            IoError<E>,
        >(error) ==> spec_error_taken(answer) == Err::<(), IoError<E>>(error),
{
}

} // verus!
