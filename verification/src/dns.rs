//! Extremely basic DNS client.
//!
//! This is the client side of the DNS protocol, as far as it takes to forward a
//! request to a local, trusted, full-featured resolver: building the query,
//! telling the resolver's response from other packets, and reading the addresses
//! out of it. It does not cache, does not retry and does not check signatures;
//! the resolver does. To let callers cache on top of that, time-to-live values
//! are returned alongside addresses.
//!
//! [`query`] builds the query in a buffer of the caller's and starts an
//! [`Exchange`](exchange::Exchange), which tells what to send and which of the
//! packets that arrive to hand to [`parse_response_packet`]. That returns the
//! [`Records`], or an error: a domain that does not exist is
//! [`NotFound`](crate::error::ErrorKind::NotFound).

use vstd::prelude::*;

pub mod exchange;
pub mod laws;
pub mod name;
pub mod query;
pub mod response;
pub mod wire;

pub use exchange::query;
pub use name::name_size;
pub use query::make_query_packet;
pub use response::{parse_response_packet, Address, Record, Records};

verus! {

/// The Internet DNS class.
pub const C_IN: u16 = 1;

/// DNS type A: IPv4 address.
pub const TYPE_A: u16 = 1;

/// DNS type AAAA: IPv6 address.
pub const TYPE_AAAA: u16 = 28;

/// IP address family.
#[derive(Debug, Copy, Clone, PartialEq, Eq, Structural)]
pub enum AddressFamily {
    /// IP version 4 address.
    IPv4,
    /// IP version 6 address.
    IPv6,
}

impl AddressFamily {
    /// The DNS type of the records that hold addresses of this family.
    pub open spec fn spec_as_type(self) -> u16 {
        match self {
            AddressFamily::IPv4 => TYPE_A,
            AddressFamily::IPv6 => TYPE_AAAA,
        }
    }

    /// Returns the DNS type of the records that hold addresses of this family.
    pub fn as_type(self) -> (query_type: u16)
        ensures
            query_type == self.spec_as_type(),
    {
        match self {
            AddressFamily::IPv4 => TYPE_A,
            AddressFamily::IPv6 => TYPE_AAAA,
        }
    }
}

} // verus!
