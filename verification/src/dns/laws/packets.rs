//! What holds of the bytes of packets, where they are built and where they are
//! read.

use vstd::prelude::*;

use crate::dns::exchange::{ExchangeView, Happened, Stage, Todo};
use crate::dns::laws::names::{is_no_dot, law_name_in_a_packet_ends_with_a_zero};
use crate::dns::laws::names::law_no_byte_of_a_name_is_lost;
use crate::dns::laws::{header, law_cut_off_name_does_not_end, law_name_ends_before_the_rest};
use crate::dns::laws::{law_questions_are_skipped, lemma_read_answer, wire_questions};
use crate::dns::laws::{Answer, Question};
use crate::dns::name::{labels, lemma_name_end_bounds, lemma_name_end_shift, name_end, wire_name};
use crate::dns::query::{query_fits, query_packet, query_size};
use crate::dns::response::{item_view, next_record, questions_end, response, Address, Record};
use crate::dns::response::{RecordView, RecordsView};
use crate::dns::wire::{lemma_u16_read_back, overwritten, u16_at, u16_bytes};
use crate::dns::wire::{u32_at, u32_bytes};
use crate::dns::AddressFamily;
use crate::error::ErrorKind;
use crate::net::SocketAddress;

verus! {

/// Numbers stand in packets with their most significant byte first, both where
/// they are read and where they are written.
pub proof fn law_numbers_are_big_endian(bytes: Seq<u8>, at: int, short: u16, long: u32)
    ensures
        u16_at(bytes, at) == 256 * bytes[at] + bytes[at + 1],
        u32_at(bytes, at) == 16777216 * bytes[at] + 65536 * bytes[at + 1] + 256 * bytes[at + 2]
            + bytes[at + 3],
        u16_bytes(short).len() == 2,
        256 * u16_bytes(short)[0] + u16_bytes(short)[1] == short,
        u32_bytes(long).len() == 4,
        16777216 * u32_bytes(long)[0] + 65536 * u32_bytes(long)[1] + 256 * u32_bytes(long)[2]
            + u32_bytes(long)[3] == long,
{
}

/// Two bytes are those of the number that they stand for.
proof fn lemma_u16_written_back(bytes: Seq<u8>, at: int)
    requires
        0 <= at,
        at + 2 <= bytes.len(),
    ensures
        0 <= u16_at(bytes, at) <= 0xffff,
        u16_bytes(u16_at(bytes, at) as u16) == bytes.subrange(at, at + 2),
{
    assert(u16_bytes(u16_at(bytes, at) as u16) =~= bytes.subrange(at, at + 2));
}

/// Four bytes are those of the number that they stand for.
proof fn lemma_u32_written_back(bytes: Seq<u8>, at: int)
    requires
        0 <= at,
        at + 4 <= bytes.len(),
    ensures
        0 <= u32_at(bytes, at) <= 0xffff_ffff,
        u32_bytes(u32_at(bytes, at) as u32) == bytes.subrange(at, at + 4),
{
    assert(u32_bytes(u32_at(bytes, at) as u32) =~= bytes.subrange(at, at + 4));
}

/// Writing bytes over a buffer puts each of them in its place, and leaves all that
/// is in front of them and behind them as it was.
pub proof fn law_nothing_else_is_overwritten(
    buffer: Seq<u8>,
    at: int,
    bytes: Seq<u8>,
    index: int,
)
    requires
        0 <= at,
        at + bytes.len() <= buffer.len(),
        0 <= index < buffer.len(),
    ensures
        overwritten(buffer, at, bytes).len() == buffer.len(),
        at <= index < at + bytes.len() ==> overwritten(buffer, at, bytes)[index] == bytes[index
            - at],
        !(at <= index < at + bytes.len()) ==> overwritten(buffer, at, bytes)[index]
            == buffer[index],
{
}

/// A query starts with a zero identifier, the flags that ask for recursion and for
/// authentic data, one question and nothing else; it goes on with the name, and
/// ends with the type that is asked for and the class of the Internet.
pub proof fn law_query_is_laid_out(name: Seq<u8>, query_type: u16)
    ensures
        ({
            let packet = query_packet(name, query_type);
            let size = packet.len() as int;
            &&& size >= 17
            &&& packet.take(12) == seq![0u8, 0, 1, 32, 0, 1, 0, 0, 0, 0, 0, 0]
            &&& packet.subrange(12, size - 4) == wire_name(labels(name))
            &&& packet[size - 5] == 0
            &&& 256 * packet[size - 4] + packet[size - 3] == query_type
            &&& packet[size - 2] == 0
            &&& packet[size - 1] == 1
        }),
{
    let packet = query_packet(name, query_type);
    let size = packet.len() as int;
    let wire = wire_name(labels(name));
    law_name_in_a_packet_ends_with_a_zero(labels(name));
    assert(labels(name).flatten().len() >= 0);
    assert(packet.take(12) =~= seq![0u8, 0, 1, 32, 0, 1, 0, 0, 0, 0, 0, 0]);
    assert(packet.subrange(12, size - 4) =~= wire);
    assert(packet[size - 5] == wire.last());
}

/// How long a query is: the bytes of the name that are no dots, a byte for each
/// label, and the rest that every query has. It can be built just when no label
/// is longer than 127 bytes, and it fits.
pub proof fn law_size_of_a_query(name: Seq<u8>, query_type: u16, buffer_size: nat)
    ensures
        query_size(name) == name.filter(|byte: u8| is_no_dot(byte)).len() + labels(name).len() + 17,
        query_packet(name, query_type).len() == query_size(name),
        query_fits(name, buffer_size) <==> {
            &&& forall|i: int|
                0 <= i < labels(name).len() ==> (#[trigger] labels(name)[i]).len() <= 127
            &&& query_packet(name, query_type).len() <= buffer_size
        },
{
    law_no_byte_of_a_name_is_lost(name);
    law_name_in_a_packet_ends_with_a_zero(labels(name));
}

/// Records of addresses of the two families have these types.
pub proof fn law_types_of_the_families(family: AddressFamily)
    ensures
        family.spec_as_type() == 1 <==> family is IPv4,
        family.spec_as_type() == 28 <==> family is IPv6,
{
}

/// What the header of a packet decides. A packet without one, or whose first flag
/// does not say that it is a response, is malformed. A response with code 3, or
/// without answers, says that nothing was found; with any other code it is an
/// error of another sort. With code 0 and with answers it can only be malformed
/// in its questions; if it is not, as many answers are to be read as it says, and
/// they are in what is left of the packet.
pub proof fn law_header_of_a_response_decides(bytes: Seq<u8>)
    ensures
        bytes.len() < 12 || bytes[2] < 128 ==> response(bytes) == Err::<RecordsView, ErrorKind>(
            ErrorKind::InvalidData,
        ),
        bytes.len() >= 12 && bytes[2] >= 128 ==> {
            let code = bytes[3] % 16;
            let answers = 256 * bytes[6] + bytes[7];
            &&& response(bytes) == Err::<RecordsView, ErrorKind>(ErrorKind::NotFound) <==> (code
                == 3 || answers == 0)
            &&& response(bytes) == Err::<RecordsView, ErrorKind>(ErrorKind::Other) <==> (code != 0
                && code != 3 && answers != 0)
            &&& response(bytes) matches Ok(left) ==> left.answers == answers
            &&& response(bytes) is Err ==> response(bytes) != Err::<RecordsView, ErrorKind>(
                ErrorKind::WouldBlock,
            )
        },
{
    if bytes.len() >= 12 {
        let flags = u16_at(bytes, 2);
        assert(flags % 16 == bytes[3] % 16);
    }
}

/// A name takes nothing but itself to end.
proof fn lemma_name_is_all_it_takes(bytes: Seq<u8>, at: int)
    requires
        name_end(bytes, at) is Some,
    ensures
        name_end(bytes.take(name_end(bytes, at)->0), at) == name_end(bytes, at),
    decreases (if at < bytes.len() { bytes.len() - at } else { 0 }),
{
    lemma_name_end_bounds(bytes, at);
    let end = name_end(bytes, at)->0;
    assert(bytes.take(end)[at] == bytes[at]);
    if 0 < bytes[at] < 128 {
        lemma_name_is_all_it_takes(bytes, at + 1 + bytes[at]);
    }
}

/// What is skipped are questions, as many as the packet says, and nothing besides;
/// and where there are any, something follows them.
pub proof fn law_only_questions_are_skipped(bytes: Seq<u8>, at: int, count: nat) -> (questions: Seq<
    Question,
>)
    requires
        0 <= at <= bytes.len(),
        questions_end(bytes, at, count) is Some,
    ensures
        ({
            let end = questions_end(bytes, at, count)->0;
            &&& at <= end <= bytes.len()
            &&& count > 0 ==> end < bytes.len()
            &&& questions.len() == count
            &&& forall|i: int| 0 <= i < count ==> (#[trigger] questions[i]).wf()
            &&& bytes.subrange(at, end) == wire_questions(questions)
        }),
    decreases count,
{
    if count == 0 {
        assert(bytes.subrange(at, at) =~= Seq::empty());
        Seq::empty()
    } else {
        lemma_name_end_bounds(bytes, at);
        let stop = name_end(bytes, at)->0;
        let end = questions_end(bytes, at, count)->0;
        let later = law_only_questions_are_skipped(bytes, stop + 4, (count - 1) as nat);
        let first = Question {
            name: bytes.subrange(at, stop),
            rr_type: u16_at(bytes, stop) as u16,
            class: u16_at(bytes, stop + 2) as u16,
        };
        lemma_name_end_shift(bytes, at, 0);
        lemma_name_is_all_it_takes(bytes.skip(at), 0);
        assert(bytes.skip(at).take(stop - at) =~= first.name);
        lemma_u16_written_back(bytes, stop);
        lemma_u16_written_back(bytes, stop + 2);
        let questions = seq![first] + later;
        assert forall|i: int| 0 <= i < count implies (#[trigger] questions[i]).wf() by {
            if i > 0 {
                assert(questions[i] == later[i - 1]);
            }
        }
        assert(questions.skip(1) =~= later);
        assert(bytes.subrange(at, end) =~= first.wire() + bytes.subrange(stop + 4, end));
        questions
    }
}

/// A response gives its answers to be read just as they stand behind its
/// questions, however many there are of those.
pub proof fn law_response_is_left_with_its_answers(
    id: u16,
    flags: u16,
    questions: Seq<Question>,
    answers: u16,
    authorities: u16,
    additional: u16,
    rest: Seq<u8>,
)
    requires
        flags >= 0x8000,
        flags % 16 == 0,
        questions.len() <= 0xffff,
        forall|i: int| 0 <= i < questions.len() ==> (#[trigger] questions[i]).wf(),
        answers > 0,
        questions.len() > 0 ==> rest.len() > 0,
    ensures
        response(
            header(id, flags, questions.len() as u16, answers, authorities, additional)
                + wire_questions(questions) + rest,
        ) == Ok::<RecordsView, ErrorKind>(RecordsView { bytes: rest, answers: answers as nat }),
{
    let head = header(id, flags, questions.len() as u16, answers, authorities, additional);
    let repeated = wire_questions(questions);
    let packet = head + repeated + rest;
    assert(packet.subrange(2, 4) =~= u16_bytes(flags));
    assert(packet.subrange(4, 6) =~= u16_bytes(questions.len() as u16));
    assert(packet.subrange(6, 8) =~= u16_bytes(answers));
    lemma_u16_read_back(flags, packet, 2);
    lemma_u16_read_back(questions.len() as u16, packet, 4);
    lemma_u16_read_back(answers, packet, 6);
    if questions.len() > 0 {
        law_questions_are_skipped(head, questions, rest);
    }
    assert(packet.skip((head.len() + repeated.len()) as int) =~= rest);
}

/// When no answers are left there is nothing to read, whatever bytes there are.
pub proof fn law_nothing_is_read_without_answers(bytes: Seq<u8>)
    ensures
        next_record(RecordsView { bytes, answers: 0 }).item is None,
        next_record(RecordsView { bytes, answers: 0 }).rest == (RecordsView { bytes, answers: 0 }),
{
}

/// Only records of Internet addresses become items. An answer of class 1 and of
/// type 1 gives its data if that is four bytes long, and one of type 28 if it is
/// sixteen; with any other length it gives an error. Either way its time to live
/// goes with it, and reading goes on behind it. An answer of any other class or
/// type gives nothing, whatever its data is.
pub proof fn law_only_address_records_become_items(
    answer: Answer,
    behind: Seq<u8>,
    answers: nat,
)
    requires
        answer.wf(),
        answers > 0,
    ensures
        ({
            let step = next_record(RecordsView { bytes: answer.wire() + behind, answers });
            let rest = RecordsView { bytes: behind, answers: (answers - 1) as nat };
            let found = RecordView { address: answer.data, ttl: answer.ttl as int };
            let length = answer.data.len();
            &&& answer.class != 1 || (answer.rr_type != 1 && answer.rr_type != 28) ==> step
                == next_record(rest)
            &&& answer.class == 1 && (answer.rr_type == 1 || answer.rr_type == 28) ==> step.rest
                == rest
            &&& answer.class == 1 && answer.rr_type == 1 ==> step.item == Some(
                if length == 4 {
                    Ok::<RecordView, ErrorKind>(found)
                } else {
                    Err(ErrorKind::InvalidData)
                },
            )
            &&& answer.class == 1 && answer.rr_type == 28 ==> step.item == Some(
                if length == 16 {
                    Ok::<RecordView, ErrorKind>(found)
                } else {
                    Err(ErrorKind::InvalidData)
                },
            )
        }),
{
    lemma_read_answer(answer, behind, answers);
}

/// An answer that is cut off anywhere is malformed, and stays counted as one to
/// come. What is read of it is its name, if that is all there.
pub proof fn law_cut_off_answer_is_malformed(answer: Answer, cut: int, answers: nat)
    requires
        answer.wf(),
        0 <= cut < answer.wire().len(),
        answers > 0,
    ensures
        ({
            let bytes = answer.wire().take(cut);
            let step = next_record(RecordsView { bytes, answers });
            &&& step.item == Some(Err::<RecordView, ErrorKind>(ErrorKind::InvalidData))
            &&& step.rest.answers == answers
            &&& step.rest.bytes == (if cut < answer.name.len() {
                bytes
            } else {
                bytes.skip(answer.name.len() as int)
            })
        }),
{
    let wire = answer.wire();
    let bytes = wire.take(cut);
    let end = answer.name.len() as int;
    let size = answer.data.len() as u16;
    if cut < end {
        law_cut_off_name_does_not_end(answer.name, 0, cut);
        assert(bytes =~= answer.name.take(cut));
    } else {
        let rest = bytes.skip(end);
        assert(bytes =~= answer.name + rest);
        law_name_ends_before_the_rest(answer.name, 0, rest);
        if rest.len() >= 10 {
            assert(rest.subrange(8, 10) =~= u16_bytes(size));
            lemma_u16_read_back(size, rest, 8);
        }
    }
}

/// Bytes that do not start with a name are malformed, and nothing of them is read.
pub proof fn law_answer_without_a_name_is_malformed(bytes: Seq<u8>, answers: nat)
    requires
        name_end(bytes, 0) is None,
        answers > 0,
    ensures
        ({
            let step = next_record(RecordsView { bytes, answers });
            &&& step.item == Some(Err::<RecordView, ErrorKind>(ErrorKind::InvalidData))
            &&& step.rest == (RecordsView { bytes, answers })
        }),
{
}

/// Bytes that start with a name either are the start of an answer that is cut off,
/// or there is a whole answer in front of them: there is no third.
pub proof fn law_bytes_behind_a_name_are_an_answer(bytes: Seq<u8>) -> (answer: Answer)
    requires
        name_end(bytes, 0) is Some,
    ensures
        ({
            let end = name_end(bytes, 0)->0;
            let fixed = bytes.skip(end);
            let data_end = 10 + 256 * fixed[8] + fixed[9];
            &&& 0 < end <= bytes.len()
            &&& fixed.len() >= 10 && fixed.len() >= data_end ==> {
                &&& answer.wf()
                &&& answer.name == bytes.take(end)
                &&& answer.rr_type == 256 * fixed[0] + fixed[1]
                &&& answer.class == 256 * fixed[2] + fixed[3]
                &&& answer.ttl == 16777216 * fixed[4] + 65536 * fixed[5] + 256 * fixed[6]
                    + fixed[7]
                &&& answer.data == fixed.subrange(10, data_end)
                &&& bytes == answer.wire() + fixed.skip(data_end)
            }
            &&& fixed.len() < 10 || fixed.len() < data_end ==> forall|answers: nat|
                answers > 0 ==> {
                    let step = #[trigger] next_record(RecordsView { bytes, answers });
                    &&& step.item == Some(Err::<RecordView, ErrorKind>(ErrorKind::InvalidData))
                    &&& step.rest == (RecordsView { bytes: fixed, answers })
                }
        }),
{
    lemma_name_end_bounds(bytes, 0);
    lemma_name_is_all_it_takes(bytes, 0);
    let end = name_end(bytes, 0)->0;
    let fixed = bytes.skip(end);
    let data_end = 10 + 256 * fixed[8] + fixed[9];
    let answer = Answer {
        name: bytes.take(end),
        rr_type: u16_at(fixed, 0) as u16,
        class: u16_at(fixed, 2) as u16,
        ttl: u32_at(fixed, 4) as u32,
        data: fixed.subrange(10, data_end),
    };
    if fixed.len() >= 10 && fixed.len() >= data_end {
        lemma_u16_written_back(fixed, 0);
        lemma_u16_written_back(fixed, 2);
        lemma_u32_written_back(fixed, 4);
        lemma_u16_written_back(fixed, 8);
        assert(bytes =~= answer.wire() + fixed.skip(data_end));
    }
    answer
}

/// An address is the bytes that it is made up of, in their order, and a record is
/// its address and its time to live; an item is what it is of those.
pub proof fn law_records_hold_what_they_are_made_of(
    four: [u8; 4],
    sixteen: [u8; 16],
    record: Record,
    kind: ErrorKind,
)
    ensures
        Address::V4(four)@ == four@,
        Address::V6(sixteen)@ == sixteen@,
        record@.address == record.address@,
        record@.ttl == record.ttl,
        item_view(None) is None,
        item_view(Some(Ok(record))) == Some(Ok::<RecordView, ErrorKind>(record@)),
        item_view(Some(Err(kind))) == Some(Err::<RecordView, ErrorKind>(kind)),
{
}

/// An exchange goes in order: the query is sent to the server, as long as it is,
/// once the socket is bound; once it is sent, packets are received; a packet is
/// taken for the response, as long as it is, just when it is the server's. What
/// fails is given up, with its error. Whatever happens, the server and the query
/// stay the same.
pub proof fn law_exchange_goes_in_order<E>(
    exchange: ExchangeView,
    happened: Happened<E>,
    size: usize,
    sender: SocketAddress,
    error: E,
)
    ensures
        exchange.todo(Happened::<E>::Bound) == (Todo::<E>::Send {
            size: exchange.query_size,
            to: exchange.server,
        }),
        exchange.after(Happened::<E>::Bound).stage == Stage::Sending,
        exchange.todo(Happened::<E>::Sent) == Todo::<E>::Receive,
        exchange.after(Happened::<E>::Sent).stage == Stage::Receiving,
        exchange.todo(Happened::<E>::Received { size, sender }) == (Todo::<E>::Parse { size })
            <==> sender == exchange.server,
        sender != exchange.server ==> exchange.todo(Happened::<E>::Received { size, sender })
            == Todo::<E>::Receive,
        exchange.after(Happened::<E>::Received { size, sender }).stage == exchange.stage,
        exchange.todo(Happened::Failed(error)) == Todo::GiveUp(error),
        exchange.after(happened).server == exchange.server,
        exchange.after(happened).query_size == exchange.query_size,
        exchange.expects(Happened::<E>::Bound) <==> exchange.stage is Binding,
        exchange.expects(Happened::<E>::Sent) <==> exchange.stage is Sending,
        exchange.expects(Happened::<E>::Received { size, sender }) <==> exchange.stage is Receiving,
        exchange.expects(Happened::Failed(error)),
{
}

} // verus!
