//! Query packets.

use vstd::prelude::*;

use crate::dns::name::{label_end, labels, labels_fit, wire_name, DOT};
use crate::dns::name::{lemma_first_label, lemma_wire_name_len, LABEL_LIMIT};
use crate::dns::wire::{lemma_overwritten_twice, overwritten, put_bytes, put_u16, u16_bytes};
use crate::dns::C_IN;

verus! {

/// The flags of a query: recursion is desired, and the answer may be taken for
/// authentic.
pub const QUERY_FLAGS: u16 = 0x0120;

/// How long the header is that every packet starts with.
pub const HEADER_SIZE: usize = 12;

/// The header of a query: a zero identifier, the flags, and the numbers of
/// questions, answers, authorities and additional records.
pub open spec fn query_header() -> Seq<u8> {
    u16_bytes(0) + u16_bytes(QUERY_FLAGS) + u16_bytes(1) + u16_bytes(0) + u16_bytes(0) + u16_bytes(
        0,
    )
}

/// The one question of a query: the name, then the type and the class of the
/// records that are asked for.
pub open spec fn question(name: Seq<u8>, query_type: u16) -> Seq<u8> {
    wire_name(labels(name)) + u16_bytes(query_type) + u16_bytes(C_IN)
}

/// The packet that asks for the records of `query_type` of a domain.
pub open spec fn query_packet(name: Seq<u8>, query_type: u16) -> Seq<u8> {
    query_header() + question(name, query_type)
}

/// How long the packet is that asks about a domain.
pub open spec fn query_size(name: Seq<u8>) -> nat {
    HEADER_SIZE as nat + wire_name(labels(name)).len() + 4
}

/// Whether a query about a domain can be built in a buffer of that size.
pub open spec fn query_fits(name: Seq<u8>, buffer_size: nat) -> bool {
    labels_fit(labels(name)) && query_size(name) <= buffer_size
}

/// Tells whether a query about `name` can be built in a buffer of that size:
/// whether none of its labels is too long, and the packet is not either.
pub fn can_query(name: &[u8], buffer_size: usize) -> (fits: bool)
    ensures
        fits == query_fits(name@, buffer_size as nat),
{
    proof {
        lemma_wire_name_len(labels(name@));
    }
    if buffer_size < HEADER_SIZE + 5 {
        return false;
    }
    let mut room: usize = buffer_size - (HEADER_SIZE + 5);
    let mut pos: usize = 0;
    assert(name@.skip(0) =~= name@);
    while pos < name.len()
        invariant
            pos <= name.len(),
            query_fits(name@, buffer_size as nat) <==> labels_fit(labels(name@.skip(pos as int)))
                && wire_name(labels(name@.skip(pos as int))).len() - 1 <= room,
        decreases name.len() - pos,
    {
        let ghost rest = name@.skip(pos as int);
        if name[pos] == DOT {
            pos = pos + 1;
            assert(rest.skip(1) =~= name@.skip(pos as int));
        } else {
            let end = label_end(name, pos);
            let length: usize = end - pos;
            proof {
                lemma_first_label(rest);
                lemma_wire_name_len(labels(rest.skip(length as int)));
                assert(rest.skip(length as int) =~= name@.skip(end as int));
            }
            if length >= LABEL_LIMIT as usize || room < length + 1 {
                return false;
            }
            room = room - (length + 1);
            pos = end;
        }
    }
    assert(name@.skip(pos as int).len() == 0);
    true
}

/// Builds a query about `name` at the start of `buffer`, and returns how many
/// bytes it takes up there.
pub fn make_query_packet(name: &[u8], buffer: &mut [u8], query_type: u16) -> (size: usize)
    requires
        query_fits(name@, old(buffer)@.len()),
    ensures
        size == query_packet(name@, query_type).len(),
        size == query_size(name@),
        final(buffer)@ == overwritten(old(buffer)@, 0, query_packet(name@, query_type)),
{
    let ghost before = buffer@;
    let ghost tail = u16_bytes(query_type) + u16_bytes(C_IN);
    let ghost packet = query_packet(name@, query_type);
    let limit: usize = buffer.len();
    put_u16(buffer, 0, 0);
    put_u16(buffer, 2, QUERY_FLAGS);
    put_u16(buffer, 4, 1);
    put_u16(buffer, 6, 0);
    put_u16(buffer, 8, 0);
    put_u16(buffer, 10, 0);
    let mut at: usize = HEADER_SIZE;
    let ghost mut written = query_header();
    proof {
        assert(buffer@ =~= overwritten(before, 0, written));
        assert(name@.skip(0) =~= name@);
        assert(packet =~= written + wire_name(labels(name@)) + tail);
    }
    let mut pos: usize = 0;
    while pos < name.len()
        invariant
            pos <= name.len(),
            labels_fit(labels(name@.skip(pos as int))),
            before.len() == limit,
            packet.len() <= limit,
            packet == written + wire_name(labels(name@.skip(pos as int))) + tail,
            at == written.len(),
            buffer@ == overwritten(before, 0, written),
        decreases name.len() - pos,
    {
        let ghost rest = name@.skip(pos as int);
        if name[pos] == DOT {
            pos = pos + 1;
            assert(rest.skip(1) =~= name@.skip(pos as int));
        } else {
            let end = label_end(name, pos);
            let length: usize = end - pos;
            let ghost label = rest.take(length as int);
            let ghost byte = seq![length as u8];
            proof {
                lemma_first_label(rest);
                assert(rest.skip(length as int) =~= name@.skip(end as int));
                assert(label =~= name@.subrange(pos as int, end as int));
                lemma_overwritten_twice(before, written, byte);
                lemma_overwritten_twice(before, written + byte, label);
            }
            buffer[at] = length as u8;
            assert(buffer@ =~= overwritten(before, 0, written + byte));
            put_bytes(buffer, at + 1, name, pos, length);
            at = at + 1 + length;
            pos = end;
            proof {
                assert(packet =~= (written + byte + label) + wire_name(
                    labels(name@.skip(end as int)),
                ) + tail);
                written = written + byte + label;
            }
        }
    }
    proof {
        assert(name@.skip(pos as int).len() == 0);
        assert(wire_name(labels(name@.skip(pos as int))) =~= seq![0u8]);
        assert(packet =~= written + seq![0u8] + u16_bytes(query_type) + u16_bytes(C_IN));
    }
    buffer[at] = 0;
    put_u16(buffer, at + 1, query_type);
    put_u16(buffer, at + 3, C_IN);
    assert(buffer@ =~= overwritten(before, 0, packet));
    at + 5
}

} // verus!
