//! Response packets and the addresses in them.

use vstd::prelude::*;

use crate::dns::name::{lemma_name_end_shift, name_end, name_size};
use crate::dns::query::HEADER_SIZE;
use crate::dns::wire::{read_u16, read_u32, u16_at, u32_at};
use crate::dns::{C_IN, TYPE_A, TYPE_AAAA};
use crate::error::ErrorKind;

verus! {

/// The flag that tells a response from a query.
pub const RESPONSE_FLAG: u16 = 0x8000;

/// The response code of a domain that does not exist.
pub const NO_SUCH_DOMAIN: u16 = 3;

/// How long the part of an answer is between its name and its data.
pub const ANSWER_FIXED_SIZE: usize = 10;

/// An IP address, as the bytes that make it up, the first byte first.
#[derive(Debug, Copy, Clone, PartialEq, Eq)]
pub enum Address {
    /// An IP version 4 address.
    V4([u8; 4]),
    /// An IP version 6 address.
    V6([u8; 16]),
}

impl View for Address {
    type V = Seq<u8>;

    /// The bytes that make the address up: four, or sixteen.
    open spec fn view(&self) -> Seq<u8> {
        match self {
            Address::V4(octets) => octets@,
            Address::V6(octets) => octets@,
        }
    }
}

/// IP address record with TTL.
#[derive(Debug, Copy, Clone, PartialEq, Eq)]
pub struct Record {
    /// The address.
    pub address: Address,
    /// Time to live, in seconds.
    ///
    /// It's OK to cache this record for this long.
    pub ttl: u32,
}

/// An address record: the bytes of the address, and the time to live.
pub struct RecordView {
    pub address: Seq<u8>,
    pub ttl: int,
}

impl View for Record {
    type V = RecordView;

    open spec fn view(&self) -> RecordView {
        RecordView { address: self.address@, ttl: self.ttl as int }
    }
}

/// An iterator over [`Record`]s.
#[derive(Debug)]
pub struct Records<'a> {
    buffer: &'a [u8],
    answer_count: usize,
}

/// What is left to read of the answers of a packet: its bytes, and how many
/// answers the packet claims are still to come.
pub struct RecordsView {
    pub bytes: Seq<u8>,
    pub answers: nat,
}

impl<'a> View for Records<'a> {
    type V = RecordsView;

    closed spec fn view(&self) -> RecordsView {
        RecordsView { bytes: self.buffer@, answers: self.answer_count as nat }
    }
}

impl<'a> Clone for Records<'a> {
    fn clone(&self) -> (copy: Records<'a>)
        ensures
            copy@ == self@,
    {
        Records { buffer: self.buffer, answer_count: self.answer_count }
    }
}

/// What an answer says of an address, from its type, its class and its data:
/// `None` where it is about something else than an Internet address, and an
/// error where the data is not as long as an address of its type.
pub open spec fn address_in(rr_type: int, class: int, data: Seq<u8>) -> Option<
    Result<Seq<u8>, ErrorKind>,
> {
    if class != C_IN || (rr_type != TYPE_A && rr_type != TYPE_AAAA) {
        None
    } else if data.len() == (if rr_type == TYPE_A { 4int } else { 16 }) {
        Some(Ok(data))
    } else {
        Some(Err(ErrorKind::InvalidData))
    }
}

/// What comes of reading on: an item, or nothing any more, and what is then
/// left to read.
pub struct Step {
    pub item: Option<Result<RecordView, ErrorKind>>,
    pub rest: RecordsView,
}

/// Reads on up to the next address record.
///
/// Answers about other things are passed over. An answer that holds an address of
/// a wrong length is an error, and is passed over too. One whose name does not end
/// is an error that stays where it is: it comes up again each time. One that is
/// cut off behind its name is an error of which the name has been read: reading
/// goes on behind the name, with the answer still counted as one to come.
pub open spec fn next_record(left: RecordsView) -> Step
    decreases left.answers,
{
    if left.answers == 0 {
        Step { item: None, rest: left }
    } else {
        match name_end(left.bytes, 0) {
            None => Step { item: Some(Err(ErrorKind::InvalidData)), rest: left },
            Some(end) => {
                let bytes = left.bytes.skip(end);
                let data_end = ANSWER_FIXED_SIZE + u16_at(bytes, 8);
                if bytes.len() < ANSWER_FIXED_SIZE || bytes.len() < data_end {
                    Step {
                        item: Some(Err(ErrorKind::InvalidData)),
                        rest: RecordsView { bytes, answers: left.answers },
                    }
                } else {
                    let rest = RecordsView {
                        bytes: bytes.skip(data_end),
                        answers: (left.answers - 1) as nat,
                    };
                    let data = bytes.subrange(ANSWER_FIXED_SIZE as int, data_end);
                    match address_in(u16_at(bytes, 0), u16_at(bytes, 2), data) {
                        None => next_record(rest),
                        Some(Ok(address)) => Step {
                            item: Some(Ok(RecordView { address, ttl: u32_at(bytes, 4) })),
                            rest,
                        },
                        Some(Err(kind)) => Step { item: Some(Err(kind)), rest },
                    }
                }
            },
        }
    }
}

/// An item as its view.
pub open spec fn item_view(item: Option<Result<Record, ErrorKind>>) -> Option<
    Result<RecordView, ErrorKind>,
> {
    match item {
        None => None,
        Some(Ok(record)) => Some(Ok(record@)),
        Some(Err(kind)) => Some(Err(kind)),
    }
}

/// Reads an address of the given type out of the data of an answer.
fn read_address(rr_type: u16, class: u16, data: &[u8]) -> (found: Option<
    Result<Address, ErrorKind>,
>)
    ensures
        (match found {
            None => None,
            Some(Ok(address)) => Some(Ok::<Seq<u8>, ErrorKind>(address@)),
            Some(Err(kind)) => Some(Err(kind)),
        }) == address_in(rr_type as int, class as int, data@),
        found matches Some(Ok(address)) ==> (address is V4 <==> rr_type == TYPE_A),
{
    if class != C_IN {
        return None;
    }
    if rr_type == TYPE_A {
        if data.len() != 4 {
            return Some(Err(ErrorKind::InvalidData));
        }
        let octets: [u8; 4] = [data[0], data[1], data[2], data[3]];
        assert(octets@ =~= data@);
        Some(Ok(Address::V4(octets)))
    } else if rr_type == TYPE_AAAA {
        if data.len() != 16 {
            return Some(Err(ErrorKind::InvalidData));
        }
        let octets: [u8; 16] = [
            data[0],
            data[1],
            data[2],
            data[3],
            data[4],
            data[5],
            data[6],
            data[7],
            data[8],
            data[9],
            data[10],
            data[11],
            data[12],
            data[13],
            data[14],
            data[15],
        ];
        assert(octets@ =~= data@);
        Some(Ok(Address::V6(octets)))
    } else {
        None
    }
}

impl<'a> Records<'a> {
    /// Returns the next address record, or an error where the packet is
    /// malformed, or `None` once all the answers have been read.
    pub fn next(&mut self) -> (item: Option<Result<Record, ErrorKind>>)
        ensures
            item_view(item) == next_record(old(self)@).item,
            final(self)@ == next_record(old(self)@).rest,
    {
        while self.answer_count > 0
            invariant
                next_record(self@) == next_record(old(self)@),
            decreases self.answer_count,
        {
            let size: usize = match name_size(self.buffer) {
                Ok(size) => size,
                Err(kind) => {
                    return Some(Err(kind));
                },
            };
            self.buffer = &self.buffer[size..self.buffer.len()];
            if self.buffer.len() < ANSWER_FIXED_SIZE {
                return Some(Err(ErrorKind::InvalidData));
            }
            let rr_type: u16 = read_u16(self.buffer, 0);
            let class: u16 = read_u16(self.buffer, 2);
            let ttl: u32 = read_u32(self.buffer, 4);
            let data_size: usize = read_u16(self.buffer, 8) as usize;
            if self.buffer.len() < ANSWER_FIXED_SIZE + data_size {
                return Some(Err(ErrorKind::InvalidData));
            }
            let data: &[u8] = &self.buffer[ANSWER_FIXED_SIZE..ANSWER_FIXED_SIZE + data_size];
            self.buffer = &self.buffer[ANSWER_FIXED_SIZE + data_size..self.buffer.len()];
            self.answer_count = self.answer_count - 1;
            match read_address(rr_type, class, data) {
                None => {},
                Some(Ok(address)) => {
                    return Some(Ok(Record { address, ttl }));
                },
                Some(Err(kind)) => {
                    return Some(Err(kind));
                },
            }
        }
        None
    }
}

/// Where the questions end of which the first starts at `at`: each is a name,
/// a type and a class, and none ends where the packet does, since there are
/// answers to follow.
pub open spec fn questions_end(bytes: Seq<u8>, at: int, count: nat) -> Option<int>
    decreases count,
{
    if count == 0 {
        Some(at)
    } else {
        match name_end(bytes, at) {
            None => None,
            Some(end) => if end + 4 < bytes.len() {
                questions_end(bytes, end + 4, (count - 1) as nat)
            } else {
                None
            },
        }
    }
}

/// What a packet amounts to: the answers to read, or the error that it gives.
pub open spec fn response(bytes: Seq<u8>) -> Result<RecordsView, ErrorKind> {
    let flags = u16_at(bytes, 2);
    let answers = u16_at(bytes, 6);
    if bytes.len() < HEADER_SIZE || flags < RESPONSE_FLAG {
        Err(ErrorKind::InvalidData)
    } else if flags % 16 == NO_SUCH_DOMAIN || answers == 0 {
        Err(ErrorKind::NotFound)
    } else if flags % 16 != 0 {
        Err(ErrorKind::Other)
    } else {
        match questions_end(bytes, HEADER_SIZE as int, u16_at(bytes, 4) as nat) {
            None => Err(ErrorKind::InvalidData),
            Some(at) => Ok(RecordsView { bytes: bytes.skip(at), answers: answers as nat }),
        }
    }
}

/// Reads the header of a response, skips its questions, and returns the
/// answers.
pub fn parse_response_packet(buffer: &[u8]) -> (result: Result<Records<'_>, ErrorKind>)
    ensures
        (match result {
            Ok(records) => Ok::<RecordsView, ErrorKind>(records@),
            Err(kind) => Err(kind),
        }) == response(buffer@),
{
    if buffer.len() < HEADER_SIZE {
        return Err(ErrorKind::InvalidData);
    }
    let flags: u16 = read_u16(buffer, 2);
    let question_count: usize = read_u16(buffer, 4) as usize;
    let answer_count: usize = read_u16(buffer, 6) as usize;
    assert(flags & 0x8000 == 0x8000 <==> flags >= 0x8000) by (bit_vector);
    assert(flags & 0xf == flags % 16) by (bit_vector);
    if flags & RESPONSE_FLAG != RESPONSE_FLAG {
        // It's a query, not an answer?
        return Err(ErrorKind::InvalidData);
    }
    if flags & 0xf == NO_SUCH_DOMAIN || answer_count == 0 {
        return Err(ErrorKind::NotFound);
    }
    if flags & 0xf != 0 {
        return Err(ErrorKind::Other);
    }
    // Skip the questions.
    let mut pos: usize = HEADER_SIZE;
    let mut skipped: usize = 0;
    while skipped < question_count
        invariant
            skipped <= question_count,
            pos <= buffer.len(),
            questions_end(buffer@, HEADER_SIZE as int, question_count as nat) == questions_end(
                buffer@,
                pos as int,
                (question_count - skipped) as nat,
            ),
            response(buffer@) == (match questions_end(
                buffer@,
                HEADER_SIZE as int,
                question_count as nat,
            ) {
                None => Err(ErrorKind::InvalidData),
                Some(at) => Ok(
                    RecordsView { bytes: buffer@.skip(at), answers: answer_count as nat },
                ),
            }),
        decreases question_count - skipped,
    {
        proof {
            lemma_name_end_shift(buffer@, pos as int, 0);
        }
        let rest: &[u8] = &buffer[pos..buffer.len()];
        assert(rest@ =~= buffer@.skip(pos as int));
        let size: usize = match name_size(rest) {
            Ok(size) => size,
            Err(kind) => {
                return Err(kind);
            },
        };
        pos = pos + size;
        // The header declared that there are some answers, so we don't expect
        // to run into the end of packet.
        if buffer.len() - pos <= 4 {
            return Err(ErrorKind::InvalidData);
        }
        pos = pos + 4;
        skipped = skipped + 1;
    }
    let rest: &[u8] = &buffer[pos..buffer.len()];
    assert(rest@ =~= buffer@.skip(pos as int));
    Ok(Records { buffer: rest, answer_count })
}

} // verus!
