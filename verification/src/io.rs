//! Asynchronous input/output.

use vstd::prelude::*;

use crate::error::IoError;
use crate::reactor::{settled, Registration, Waiter, WaiterView, Waiting, Wakers};
use crate::sys::{epollin, epollout, is_o_nonblock, o_nonblock, EPOLLIN, EPOLLOUT};
use crate::util::{cvt, cvt_with};

verus! {

/// The kind of I/O readiness notifications.
///
/// A value of this type describes what kind of I/O readiness notifications
/// (such as "you can now read from this socket") you're interested in.
#[derive(Debug, Copy, Clone, PartialEq, Eq, Structural)]
pub enum Interest {
    /// Interested in this file becoming readable.
    Read,
    /// Interested in this file becoming writable.
    Write,
    /// Interested in this file becoming readable or writable.
    ReadWrite,
}

impl Interest {
    /// The events that this interest is in.
    pub open spec fn events(self) -> u32 {
        match self {
            Interest::Read => EPOLLIN,
            Interest::Write => EPOLLOUT,
            Interest::ReadWrite => EPOLLIN | EPOLLOUT,
        }
    }

    /// Returns the events that this interest is in.
    pub fn as_events(self) -> (events: u32)
        ensures
            events == self.events(),
    {
        match self {
            Interest::Read => epollin(),
            Interest::Write => epollout(),
            Interest::ReadWrite => epollin() | epollout(),
        }
    }
}

/// What has become of an operation so far.
#[derive(Debug, PartialEq, Eq)]
pub enum Poll<T> {
    /// It is complete, with that result.
    Ready(T),
    /// It is not complete yet.
    Pending,
}

/// A wrapper type to perform I/O asynchronously.
///
/// `T` is the type of what is wrapped, and `W` that of what wakes a task.
#[derive(Debug)]
pub struct Async<T, W> {
    inner: Option<T>,
    waiter: Waiter<W>,
}

impl<T, W> Async<T, W> {
    /// The wrapped value, unless it has been taken.
    pub closed spec fn inner(self) -> Option<T> {
        self.inner
    }

    /// What waits for events.
    pub closed spec fn waiter(self) -> WaiterView<W> {
        self.waiter@
    }

    /// As long as there is a wrapped value, whatever waits will be told.
    pub open spec fn wf(self) -> bool {
        self.inner() is Some ==> self.waiter().wf()
    }

    /// Whether the file has to be deleted from the reactor before the wrapped
    /// value is taken or dropped.
    pub open spec fn spec_must_deregister(self) -> bool {
        self.waiter().register_for != 0 && self.inner() is Some
    }

    /// Whether the file is registered with no reactor, and nothing waits.
    pub open spec fn spec_is_idle(self) -> bool {
        &&& self.waiter().register_for == 0
        &&& forall|interest: Interest| !self.waiter().waiting.on(interest)
    }

    /// Wraps some sort of a file, which does not block.
    pub fn new(inner: T) -> (wrapped: Async<T, W>)
        ensures
            wrapped.wf(),
            wrapped.inner() == Some(inner),
            wrapped.waiter() == (WaiterView {
                wakers: Wakers::<W>::spec_nobody(),
                register_for: 0,
                waiting: Waiting::spec_nothing(),
            }),
    {
        Async { inner: Some(inner), waiter: Waiter::new() }
    }

    /// Tells whether the wrapped value is still there.
    pub fn has_inner(&self) -> (there: bool)
        ensures
            there == (self.inner() is Some),
    {
        self.inner.is_some()
    }

    /// Gets a reference to the wrapped value.
    pub fn get_ref(&self) -> (inner: &T)
        requires
            self.inner() is Some,
        ensures
            self.inner() == Some(*inner),
    {
        self.inner.as_ref().unwrap()
    }

    /// Gets a mutable reference to the wrapped value.
    pub fn get_mut(&mut self) -> (inner: &mut T)
        requires
            old(self).inner() is Some,
        ensures
            old(self).inner() == Some(*inner),
            final(self).inner() == Some(*final(inner)),
            final(self).waiter() == old(self).waiter(),
    {
        self.inner.as_mut().unwrap()
    }

    /// Gets a mutable reference to what waits for events.
    pub fn waiter_mut(&mut self) -> (waiter: &mut Waiter<W>)
        ensures
            waiter@ == old(self).waiter(),
            final(self).waiter() == final(waiter)@,
            final(self).inner() == old(self).inner(),
    {
        &mut self.waiter
    }

    /// Tells whether the file has to be deleted from the reactor before the
    /// wrapped value is taken or dropped.
    pub fn must_deregister(&self) -> (registered: bool)
        ensures
            registered == self.spec_must_deregister(),
    {
        self.waiter.register_for() != 0 && self.inner.is_some()
    }

    /// Tells whether the file is registered with no reactor, and nothing waits.
    pub fn is_idle(&self) -> (idle: bool)
        ensures
            idle == self.spec_is_idle(),
    {
        self.waiter.register_for() == 0 && self.waiter.waiting().is_nothing()
    }

    /// Extracts the wrapped value, from which nothing has been waited for.
    pub fn into_inner(self) -> (inner: T)
        requires
            self.inner() is Some,
            self.spec_is_idle(),
        ensures
            self.inner() == Some(inner),
    {
        self.inner.unwrap()
    }

    /// Extracts the wrapped value, given the return code of deleting its file from
    /// the reactor, if it had to be, and the error that goes with it. As long as
    /// the file could not be deleted, nothing changes.
    pub fn take_inner_with(&mut self, return_code: Option<i32>, os_error: i32) -> (result: Result<
        T,
        i32,
    >)
        requires
            old(self).inner() is Some,
            return_code is Some <==> old(self).spec_must_deregister(),
        ensures
            old(self).wf() ==> final(self).wf(),
            (return_code matches Some(code) && code < 0) ==> {
                &&& result == Err::<T, i32>(os_error)
                &&& *final(self) == *old(self)
            },
            !(return_code matches Some(code) && code < 0) ==> {
                &&& result matches Ok(inner)
                &&& taken(*old(self), inner, *final(self))
            },
    {
        if let Some(return_code) = return_code {
            match cvt_with(return_code, os_error) {
                Ok(_) => self.waiter.deregistered(),
                Err(code) => {
                    return Err(code);
                },
            }
        }
        Ok(self.inner.take().unwrap())
    }

    /// Extracts the wrapped value, given the return code of deleting its file from
    /// the reactor, if it had to be. As long as the file could not be deleted,
    /// nothing changes.
    ///
    /// The only thing to do with what is left is to drop it. The error is the one
    /// that the operating system last reported to this thread.
    pub fn take_inner(&mut self, return_code: Option<i32>) -> (result: Result<T, i32>)
        requires
            old(self).inner() is Some,
            return_code is Some <==> old(self).spec_must_deregister(),
        ensures
            old(self).wf() ==> final(self).wf(),
            (return_code matches Some(code) && code < 0) ==> {
                &&& result is Err
                &&& *final(self) == *old(self)
            },
            !(return_code matches Some(code) && code < 0) ==> {
                &&& result matches Ok(inner)
                &&& taken(*old(self), inner, *final(self))
            },
    {
        let os_error: i32 = match return_code {
            Some(code) => match cvt(code) {
                Ok(_) => 0,
                Err(os_error) => os_error,
            },
            None => 0,
        };
        self.take_inner_with(return_code, os_error)
    }
}

/// Whether that is left when the wrapped value is taken: there is none any more,
/// and the file is registered with no reactor.
pub open spec fn taken<T, W>(before: Async<T, W>, inner: T, after: Async<T, W>) -> bool {
    &&& before.inner() == Some(inner)
    &&& after.inner() is None
    &&& after.waiter() == before.waiter().deregistered()
}

/// A call of an operation: the value that it is given, what comes of it, and what
/// it leaves of the value.
pub struct Call<T, R, E> {
    pub given: T,
    pub outcome: Result<R, IoError<E>>,
    pub left: T,
}

/// Whether polling with that interest, for the task of that waker, has that
/// result, and leaves that of what was wrapped, when the operation is called in
/// that way, or not at all. It is not called as long as one with the same
/// interest waits; else it is called on the wrapped value.
pub open spec fn polled<T, W: Clone, R, E>(
    before: Async<T, W>,
    waker: W,
    interest: Interest,
    call: Option<Call<T, R, E>>,
    result: (Poll<Result<R, IoError<E>>>, Option<Registration>),
    after: Async<T, W>,
) -> bool {
    if before.waiter().waiting.on(interest) {
        &&& call is None
        &&& result.0 is Pending
        &&& result.1 is None
        &&& after.inner() == before.inner()
        &&& after.waiter() == before.waiter()
    } else {
        &&& call matches Some(call)
        &&& before.inner() == Some(call.given)
        &&& after.inner() == Some(call.left)
        &&& settled(before.waiter(), waker, interest, call.outcome, result, after.waiter())
    }
}

impl<T, W: Clone> Async<T, W> {
    /// Wraps a potentially blocking operation into a poll-style non-blocking
    /// call.
    ///
    /// * If the closure returns an error of kind
    ///   [`WouldBlock`](crate::error::ErrorKind::WouldBlock), the current task
    ///   is to be woken up according to `interest`; this returns
    ///   [`Poll::Pending`], and what to ask of the reactor to that end.
    ///
    /// * If the closure returns anything else, this wraps the return value into
    ///   [`Poll::Ready`].
    ///
    /// As a special case, if the last time this method was called with the same
    /// `interest`, the closure has returned such an error, and the reactor has
    /// not yet indicated that the file is ready to make progress according to
    /// this `interest`, the closure is not called, and this returns
    /// [`Poll::Pending`] straight away.
    pub fn poll_nonblocking<'a, R, E, F: FnOnce(&'a mut T) -> Result<R, IoError<E>>>(
        &'a mut self,
        waker: &W,
        interest: Interest,
        f: F,
    ) -> (result: (Poll<Result<R, IoError<E>>>, Option<Registration>))
        requires
            old(self).inner() is Some,
            forall|inner: &mut T| *inner == old(self).inner()->0 ==> f.requires((inner,)),
        ensures
            old(self).wf() ==> final(self).wf(),
            result.0 is Ready ==> final(self).waiter() == old(self).waiter(),
            old(self).waiter().waiting.on(interest) ==> polled(
                *old(self),
                *waker,
                interest,
                None,
                result,
                *final(self),
            ),
            !old(self).waiter().waiting.on(interest) ==> exists|
                inner: &mut T,
                outcome: Result<R, IoError<E>>,
            |
                {
                    let call = Call { given: *inner, outcome, left: *final(inner) };
                    &&& #[trigger] f.ensures((inner,), outcome)
                    &&& polled(*old(self), *waker, interest, Some(call), result, *final(self))
                },
    {
        if self.waiter.waiting().is_on(interest) {
            // We've been blocked on this since last time,
            // and still haven't received a wake-up from reactor.
            // Bail out immediately.
            return (Poll::Pending, None);
        }
        let inner = self.inner.as_mut().unwrap();
        let outcome = f(inner);
        self.waiter.settle(waker, interest, outcome)
    }
}

/// The flags to set on a file so that its operations do not block, given those
/// that it has, unless they are set already.
pub open spec fn spec_nonblocking_flags(flags: i32, o_nonblock: i32) -> Option<i32> {
    if flags & o_nonblock == 0 {
        Some(flags | o_nonblock)
    } else {
        None
    }
}

/// Returns the flags to set on a file so that its operations do not block, or
/// `None` if they are set already.
pub fn nonblocking_flags(flags: i32, o_nonblock: i32) -> (to_set: Option<i32>)
    ensures
        to_set == spec_nonblocking_flags(flags, o_nonblock),
        to_set is None <==> flags & o_nonblock != 0,
        to_set matches Some(all) ==> all == flags | o_nonblock,
{
    if flags & o_nonblock == 0 {
        Some(flags | o_nonblock)
    } else {
        None
    }
}

/// Takes the return code of asking for the flags of a file, and returns the
/// flags to set so that its operations do not block, or `None` if they are set
/// already.
///
/// Which flag that is, the operating system decides. The error is the one that
/// it last reported to this thread.
pub fn ensure_nonblocking(return_code: i32) -> (result: Result<Option<i32>, i32>)
    ensures
        return_code < 0 ==> result is Err,
        return_code >= 0 ==> exists|o_nonblock: i32|
            is_o_nonblock(o_nonblock) && result == Ok::<Option<i32>, i32>(
                #[trigger] spec_nonblocking_flags(return_code, o_nonblock),
            ),
{
    match cvt(return_code) {
        Ok(flags) => Ok(nonblocking_flags(flags, o_nonblock())),
        Err(code) => Err(code),
    }
}

/// Whether a file that has been flushed is to be closed: when all has gone out.
pub open spec fn spec_closes_after<E>(flushed: Poll<Result<(), E>>) -> bool {
    flushed matches Poll::Ready(result) && result is Ok
}

/// Tells whether a file that has been flushed is to be closed: when all has gone
/// out.
pub fn closes_after<E>(flushed: &Poll<Result<(), E>>) -> (closes: bool)
    ensures
        closes == (flushed matches Poll::Ready(result) && result is Ok),
        closes == spec_closes_after(*flushed),
{
    match flushed {
        Poll::Ready(Ok(())) => true,
        _ => false,
    }
}

/// What accepting a connection gives as an item of the endless stream of
/// connections: the connection without its address, or the error.
pub open spec fn spec_incoming_item<S, A, E>(accepted: Poll<Result<(S, A), E>>) -> Poll<
    Option<Result<S, E>>,
> {
    match accepted {
        Poll::Ready(Ok((stream, _))) => Poll::Ready(Some(Ok(stream))),
        Poll::Ready(Err(error)) => Poll::Ready(Some(Err(error))),
        Poll::Pending => Poll::Pending,
    }
}

/// Turns what came of accepting a connection into an item of the endless stream
/// of connections.
pub fn incoming_item<S, A, E>(accepted: Poll<Result<(S, A), E>>) -> (item: Poll<
    Option<Result<S, E>>,
>)
    ensures
        item == spec_incoming_item(accepted),
        !(item matches Poll::Ready(None)),
{
    match accepted {
        Poll::Ready(Ok((stream, _address))) => Poll::Ready(Some(Ok(stream))),
        Poll::Ready(Err(error)) => Poll::Ready(Some(Err(error))),
        Poll::Pending => Poll::Pending,
    }
}

} // verus!
