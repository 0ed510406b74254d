//! The exchange of packets that a query takes.

use vstd::prelude::*;

use crate::dns::query::{make_query_packet, query_fits, query_packet, query_size};
use crate::dns::wire::overwritten;
use crate::dns::AddressFamily;
use crate::net::SocketAddress;

verus! {

/// How far an exchange has come.
#[derive(Debug, Copy, Clone, PartialEq, Eq, Structural)]
pub enum Stage {
    /// The socket is being bound.
    Binding,
    /// The query is being sent.
    Sending,
    /// The response is waited for.
    Receiving,
}

/// A query under way.
#[derive(Debug)]
pub struct Exchange {
    /// Which DNS server is queried.
    server: SocketAddress,
    /// How long the query packet is.
    query_size: usize,
    /// How far the exchange has come.
    stage: Stage,
}

/// A query under way: the server that is queried, how long the query packet is,
/// and how far the exchange has come.
pub struct ExchangeView {
    pub server: SocketAddress,
    pub query_size: usize,
    pub stage: Stage,
}

impl View for Exchange {
    type V = ExchangeView;

    closed spec fn view(&self) -> ExchangeView {
        ExchangeView { server: self.server, query_size: self.query_size, stage: self.stage }
    }
}

/// What has happened.
#[derive(Debug, PartialEq, Eq)]
pub enum Happened<E> {
    /// The socket has been bound.
    Bound,
    /// The query has been sent.
    Sent,
    /// A packet of that size has been received.
    Received { size: usize, sender: SocketAddress },
    /// What was to be done has failed.
    Failed(E),
}

/// What to do next.
#[derive(Debug, PartialEq, Eq)]
pub enum Todo<E> {
    /// Bind a socket to that address.
    Bind(SocketAddress),
    /// Send that many bytes of the buffer.
    Send { size: usize, to: SocketAddress },
    /// Receive a packet into the buffer.
    Receive,
    /// Take that many bytes of the buffer for the response.
    Parse { size: usize },
    /// Give up, with that error.
    GiveUp(E),
}

impl ExchangeView {
    /// Whether that is something that can happen now.
    pub open spec fn expects<E>(self, happened: Happened<E>) -> bool {
        match happened {
            Happened::Bound => self.stage == Stage::Binding,
            Happened::Sent => self.stage == Stage::Sending,
            Happened::Received { .. } => self.stage == Stage::Receiving,
            Happened::Failed(_) => true,
        }
    }

    /// How far the exchange has come after that has happened.
    pub open spec fn after<E>(self, happened: Happened<E>) -> ExchangeView {
        match happened {
            Happened::Bound => ExchangeView { stage: Stage::Sending, ..self },
            Happened::Sent => ExchangeView { stage: Stage::Receiving, ..self },
            Happened::Received { .. } => self,
            Happened::Failed(_) => self,
        }
    }

    /// What is to be done after that has happened.
    pub open spec fn todo<E>(self, happened: Happened<E>) -> Todo<E> {
        match happened {
            Happened::Bound => Todo::Send { size: self.query_size, to: self.server },
            Happened::Sent => Todo::Receive,
            Happened::Received { size, sender } => if sender == self.server {
                Todo::Parse { size }
            } else {
                Todo::Receive
            },
            Happened::Failed(error) => Todo::GiveUp(error),
        }
    }
}

impl Exchange {
    /// Returns what to do first: to bind a socket of the server's family to
    /// whatever address is free.
    pub fn first<E>(&self) -> (todo: Todo<E>)
        ensures
            todo == Todo::<E>::Bind(self@.server.spec_unspecified()),
    {
        Todo::Bind(self.server.unspecified())
    }

    /// Takes what has happened, and returns what to do next.
    ///
    /// A packet from anyone but the server is dropped. Note that this is not a
    /// security measure, as it's trivial to spoof the sender address.
    pub fn step<E>(&mut self, happened: Happened<E>) -> (todo: Todo<E>)
        requires
            old(self)@.expects(happened),
        ensures
            final(self)@ == old(self)@.after(happened),
            todo == old(self)@.todo(happened),
    {
        match happened {
            Happened::Bound => {
                self.stage = Stage::Sending;
                Todo::Send { size: self.query_size, to: self.server }
            },
            Happened::Sent => {
                self.stage = Stage::Receiving;
                Todo::Receive
            },
            Happened::Received { size, sender } => if sender == self.server {
                Todo::Parse { size }
            } else {
                Todo::Receive
            },
            Happened::Failed(error) => Todo::GiveUp(error),
        }
    }
}

/// Starts a DNS query: builds the query packet in the buffer.
///
/// `name` is the domain name to look up, `address_family` tells whether to look
/// up IPv4 or IPv6 addresses, and `dns_server` is the server to query. The
/// buffer is also where the response is to be received.
pub fn query(
    name: &[u8],
    address_family: AddressFamily,
    dns_server: SocketAddress,
    buffer: &mut [u8],
) -> (exchange: Exchange)
    requires
        query_fits(name@, old(buffer)@.len()),
    ensures
        exchange@.server == dns_server,
        exchange@.query_size == query_size(name@),
        exchange@.stage == Stage::Binding,
        final(buffer)@ == overwritten(
            old(buffer)@,
            0,
            query_packet(name@, address_family.spec_as_type()),
        ),
{
    let query_size: usize = make_query_packet(name, buffer, address_family.as_type());
    Exchange { server: dns_server, query_size, stage: Stage::Binding }
}

} // verus!
