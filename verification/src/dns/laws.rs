//! What holds of queries and of responses as a whole.

use vstd::prelude::*;

pub mod names;
pub mod packets;

use crate::dns::exchange::{ExchangeView, Happened, Stage, Todo};
use crate::dns::name::{labels, labels_fit, lemma_labels_are_runs, lemma_name_end_bounds};
use crate::dns::name::{lemma_name_end_shift, lemma_wire_name_ends, name_end, wire_name};
use crate::dns::name::LABEL_LIMIT;
use crate::dns::query::{query_packet, question, HEADER_SIZE, QUERY_FLAGS};
use crate::dns::response::{address_in, next_record, questions_end, response, RecordView};
use crate::dns::response::{RecordsView, ANSWER_FIXED_SIZE, NO_SUCH_DOMAIN, RESPONSE_FLAG};
use crate::dns::wire::{lemma_u16_read_back, lemma_u32_read_back, u16_at, u16_bytes, u32_bytes};
use crate::dns::C_IN;
use crate::error::ErrorKind;
use crate::net::SocketAddress;

verus! {

/// A query is not taken for a response, whatever else the buffer holds.
pub proof fn law_query_is_no_response(name: Seq<u8>, query_type: u16, behind: Seq<u8>)
    ensures
        response(query_packet(name, query_type) + behind) == Err::<RecordsView, ErrorKind>(
            ErrorKind::InvalidData,
        ),
{
    let bytes = query_packet(name, query_type) + behind;
    assert(bytes.subrange(2, 4) =~= u16_bytes(QUERY_FLAGS));
    lemma_u16_read_back(QUERY_FLAGS, bytes, 2);
}

/// Where a name ends depends on nothing behind it.
pub proof fn law_name_ends_before_the_rest(name: Seq<u8>, at: int, behind: Seq<u8>)
    requires
        name_end(name, at) is Some,
    ensures
        name_end(name + behind, at) == name_end(name, at),
    decreases (if at < name.len() { name.len() - at } else { 0 }),
{
    if 0 < name[at] < LABEL_LIMIT {
        law_name_ends_before_the_rest(name, at + 1 + name[at], behind);
    }
}

/// A name that is cut off anywhere before its end does not end: that is an error.
pub proof fn law_cut_off_name_does_not_end(name: Seq<u8>, at: int, cut: int)
    requires
        name_end(name, at) matches Some(end) && 0 <= cut < end,
    ensures
        name_end(name.take(cut), at) is None,
    decreases (if at < name.len() { name.len() - at } else { 0 }),
{
    lemma_name_end_bounds(name, at);
    if at < cut {
        assert(name.take(cut)[at] == name[at]);
        if 0 < name[at] < LABEL_LIMIT {
            law_cut_off_name_does_not_end(name, at + 1 + name[at], cut);
        }
    }
}

/// A question: the name that it is about, and the type and the class of what is
/// asked for.
pub struct Question {
    pub name: Seq<u8>,
    pub rr_type: u16,
    pub class: u16,
}

impl Question {
    /// Whether the question can stand in a packet.
    pub open spec fn wf(self) -> bool {
        name_end(self.name, 0) == Some(self.name.len() as int)
    }

    /// The question in a packet.
    pub open spec fn wire(self) -> Seq<u8> {
        self.name + u16_bytes(self.rr_type) + u16_bytes(self.class)
    }
}

/// Questions in a packet, one behind the other.
pub open spec fn wire_questions(questions: Seq<Question>) -> Seq<u8>
    decreases questions.len(),
{
    if questions.len() == 0 {
        Seq::empty()
    } else {
        questions[0].wire() + wire_questions(questions.skip(1))
    }
}

/// A query asks a question that can stand in a packet.
pub proof fn law_query_asks_a_question(name: Seq<u8>, query_type: u16)
    requires
        labels_fit(labels(name)),
    ensures
        ({
            let asked = Question {
                name: wire_name(labels(name)),
                rr_type: query_type,
                class: C_IN,
            };
            asked.wf() && asked.wire() == question(name, query_type)
        }),
{
    lemma_labels_are_runs(name);
    lemma_wire_name_ends(labels(name), Seq::empty(), Seq::empty());
    let bytes = Seq::<u8>::empty() + wire_name(labels(name)) + Seq::<u8>::empty();
    assert(bytes =~= wire_name(labels(name)));
}

/// Questions are skipped as a whole, however many there are and wherever they
/// stand, as long as something follows them.
pub proof fn law_questions_are_skipped(
    before: Seq<u8>,
    questions: Seq<Question>,
    behind: Seq<u8>,
)
    requires
        forall|i: int| 0 <= i < questions.len() ==> (#[trigger] questions[i]).wf(),
        behind.len() > 0,
    ensures
        questions_end(
            before + wire_questions(questions) + behind,
            before.len() as int,
            questions.len(),
        ) == Some((before.len() + wire_questions(questions).len()) as int),
    decreases questions.len(),
{
    if questions.len() > 0 {
        let first = questions[0];
        let later = questions.skip(1);
        let bytes = before + wire_questions(questions) + behind;
        let fixed = u16_bytes(first.rr_type) + u16_bytes(first.class);
        let rest = fixed + wire_questions(later) + behind;
        let start = before.len() as int;
        assert forall|i: int| 0 <= i < later.len() implies (#[trigger] later[i]).wf() by {
            assert(later[i] == questions[i + 1]);
        }
        assert(questions[0].wf());
        assert(bytes.skip(start) =~= first.name + rest);
        lemma_name_end_shift(bytes, start, 0);
        law_name_ends_before_the_rest(first.name, 0, rest);
        law_questions_are_skipped(before + first.wire(), later, behind);
        assert(bytes =~= (before + first.wire()) + wire_questions(later) + behind);
    }
}

/// Once all the answers have been read, there is nothing any more, for good.
pub proof fn law_records_end_for_good(left: RecordsView)
    requires
        next_record(left).item is None,
    ensures
        next_record(left).rest.answers == 0,
        next_record(next_record(left).rest).item is None,
        next_record(next_record(left).rest).rest == next_record(left).rest,
    decreases left.answers,
{
    if left.answers > 0 {
        let end = name_end(left.bytes, 0)->0;
        let bytes = left.bytes.skip(end);
        let data_end = ANSWER_FIXED_SIZE + u16_at(bytes, 8);
        law_records_end_for_good(
            RecordsView { bytes: bytes.skip(data_end), answers: (left.answers - 1) as nat },
        );
    }
}

/// Whatever is wrong with the answers of a packet, the error is that the data is
/// malformed.
pub proof fn law_bad_answers_are_malformed(left: RecordsView)
    ensures
        next_record(left).item matches Some(Err(kind)) ==> kind == ErrorKind::InvalidData,
    decreases left.answers,
{
    if left.answers > 0 {
        if let Some(end) = name_end(left.bytes, 0) {
            let bytes = left.bytes.skip(end);
            let data_end = ANSWER_FIXED_SIZE + u16_at(bytes, 8);
            law_bad_answers_are_malformed(
                RecordsView { bytes: bytes.skip(data_end), answers: (left.answers - 1) as nat },
            );
        }
    }
}

/// Which name an answer is about has no influence on what is read: with any two
/// names in front of the same bytes, the item is the same, and as many answers
/// are left; so are the same bytes, if there was an answer to read.
pub proof fn law_names_of_answers_do_not_matter(
    name: Seq<u8>,
    other: Seq<u8>,
    behind: Seq<u8>,
    answers: nat,
)
    requires
        name_end(name, 0) == Some(name.len() as int),
        name_end(other, 0) == Some(other.len() as int),
    ensures
        ({
            let one = next_record(RecordsView { bytes: name + behind, answers });
            let two = next_record(RecordsView { bytes: other + behind, answers });
            &&& one.item == two.item
            &&& one.rest.answers == two.rest.answers
            &&& answers > 0 ==> one.rest.bytes == two.rest.bytes
        }),
{
    law_name_ends_before_the_rest(name, 0, behind);
    law_name_ends_before_the_rest(other, 0, behind);
    assert((name + behind).skip(name.len() as int) =~= behind);
    assert((other + behind).skip(other.len() as int) =~= behind);
}

/// Every record that is handed out takes an answer with it, so there are no more
/// records than the packet claims to have answers. What is left to read is always
/// the end of what was left before.
pub proof fn law_records_use_up_answers(left: RecordsView)
    ensures
        next_record(left).rest.answers <= left.answers,
        next_record(left).rest.bytes.is_suffix_of(left.bytes),
        next_record(left).item matches Some(item) ==> (item is Ok
            ==> next_record(left).rest.answers < left.answers),
    decreases left.answers,
{
    if left.answers > 0 {
        lemma_name_end_bounds(left.bytes, 0);
        if let Some(end) = name_end(left.bytes, 0) {
            let bytes = left.bytes.skip(end);
            let data_end = ANSWER_FIXED_SIZE + u16_at(bytes, 8);
            assert(bytes.is_suffix_of(left.bytes));
            if bytes.len() >= ANSWER_FIXED_SIZE && bytes.len() >= data_end {
                let rest = RecordsView {
                    bytes: bytes.skip(data_end),
                    answers: (left.answers - 1) as nat,
                };
                law_records_use_up_answers(rest);
                assert(rest.bytes.is_suffix_of(left.bytes));
                lemma_suffix_of_suffix(next_record(rest).rest.bytes, rest.bytes, left.bytes);
            }
        }
    }
}

proof fn lemma_suffix_of_suffix(inner: Seq<u8>, middle: Seq<u8>, outer: Seq<u8>)
    requires
        inner.is_suffix_of(middle),
        middle.is_suffix_of(outer),
    ensures
        inner.is_suffix_of(outer),
{
    let end = outer.subrange(outer.len() - inner.len(), outer.len() as int);
    assert forall|i: int| 0 <= i < inner.len() implies inner[i] == #[trigger] end[i] by {
        assert(inner[i] == middle[middle.len() - inner.len() + i]);
    }
    assert(inner =~= end);
}

/// An answer: the name that it is about, its type and its class, how long it may
/// be kept, and its data.
pub struct Answer {
    pub name: Seq<u8>,
    pub rr_type: u16,
    pub class: u16,
    pub ttl: u32,
    pub data: Seq<u8>,
}

impl Answer {
    /// Whether the answer can stand in a packet.
    pub open spec fn wf(self) -> bool {
        &&& name_end(self.name, 0) == Some(self.name.len() as int)
        &&& self.data.len() <= 0xffff
    }

    /// The answer in a packet.
    pub open spec fn wire(self) -> Seq<u8> {
        self.name + u16_bytes(self.rr_type) + u16_bytes(self.class) + u32_bytes(self.ttl)
            + u16_bytes(self.data.len() as u16) + self.data
    }
}

/// Answers in a packet, one behind the other.
pub open spec fn wire_answers(answers: Seq<Answer>) -> Seq<u8>
    decreases answers.len(),
{
    if answers.len() == 0 {
        Seq::empty()
    } else {
        answers[0].wire() + wire_answers(answers.skip(1))
    }
}

/// What answers give, in their order: a record for each that holds an address,
/// an error for each that should but whose data is not as long as an address,
/// and nothing for the others.
pub open spec fn items(answers: Seq<Answer>) -> Seq<Result<RecordView, ErrorKind>>
    decreases answers.len(),
{
    if answers.len() == 0 {
        Seq::empty()
    } else {
        let rest = items(answers.skip(1));
        let answer = answers[0];
        match address_in(answer.rr_type as int, answer.class as int, answer.data) {
            None => rest,
            Some(Ok(address)) => seq![Ok(RecordView { address, ttl: answer.ttl as int })] + rest,
            Some(Err(kind)) => seq![Err(kind)] + rest,
        }
    }
}

/// What is handed out when that many items are asked for, one after the other.
pub open spec fn handed_out(left: RecordsView, asked: nat) -> Seq<
    Option<Result<RecordView, ErrorKind>>,
>
    decreases asked,
{
    if asked == 0 {
        Seq::empty()
    } else {
        seq![next_record(left).item] + handed_out(next_record(left).rest, (asked - 1) as nat)
    }
}

/// The first of those items, and nothing any more behind the last of them.
pub open spec fn first_of(items: Seq<Result<RecordView, ErrorKind>>, asked: nat) -> Seq<
    Option<Result<RecordView, ErrorKind>>,
> {
    Seq::new(
        asked,
        |i: int|
            if i < items.len() {
                Some(items[i])
            } else {
                None
            },
    )
}

/// Reading on in a packet, past an answer that is about something else or up to
/// one that is about an address.
pub proof fn lemma_read_answer(answer: Answer, behind: Seq<u8>, answers: nat)
    requires
        answer.wf(),
        answers > 0,
    ensures
        ({
            let left = RecordsView { bytes: answer.wire() + behind, answers };
            let rest = RecordsView { bytes: behind, answers: (answers - 1) as nat };
            match address_in(answer.rr_type as int, answer.class as int, answer.data) {
                None => next_record(left) == next_record(rest),
                Some(Ok(address)) => {
                    &&& next_record(left).item == Some(
                        Ok::<RecordView, ErrorKind>(
                            RecordView { address, ttl: answer.ttl as int },
                        ),
                    )
                    &&& next_record(left).rest == rest
                },
                Some(Err(kind)) => {
                    &&& next_record(left).item == Some(Err::<RecordView, ErrorKind>(kind))
                    &&& next_record(left).rest == rest
                },
            }
        }),
{
    let size = answer.data.len() as u16;
    let all = answer.wire() + behind;
    let fixed = u16_bytes(answer.rr_type) + u16_bytes(answer.class) + u32_bytes(answer.ttl)
        + u16_bytes(size);
    let bytes = fixed + answer.data + behind;
    let end = answer.name.len() as int;
    assert(all =~= answer.name + bytes);
    law_name_ends_before_the_rest(answer.name, 0, bytes);
    assert(all.skip(end) =~= bytes);
    assert(bytes.subrange(0, 2) =~= u16_bytes(answer.rr_type));
    assert(bytes.subrange(2, 4) =~= u16_bytes(answer.class));
    assert(bytes.subrange(4, 8) =~= u32_bytes(answer.ttl));
    assert(bytes.subrange(8, 10) =~= u16_bytes(size));
    lemma_u16_read_back(answer.rr_type, bytes, 0);
    lemma_u16_read_back(answer.class, bytes, 2);
    lemma_u32_read_back(answer.ttl, bytes, 4);
    lemma_u16_read_back(size, bytes, 8);
    assert(bytes.subrange(10, 10 + size) =~= answer.data);
    assert(bytes.skip(10 + size) =~= behind);
}

/// What is read out of the answers of a packet, however often it is asked for, is
/// just what the answers give, in their order, and then the end: the address
/// records with their times to live, and errors for addresses of a wrong length,
/// which do not keep what follows them from being read.
pub proof fn law_records_are_read_back(answers: Seq<Answer>, behind: Seq<u8>, asked: nat)
    requires
        forall|i: int| 0 <= i < answers.len() ==> (#[trigger] answers[i]).wf(),
    ensures
        handed_out(
            RecordsView { bytes: wire_answers(answers) + behind, answers: answers.len() },
            asked,
        ) == first_of(items(answers), asked),
    decreases answers.len() + asked,
{
    let left = RecordsView { bytes: wire_answers(answers) + behind, answers: answers.len() };
    let all = items(answers);
    if asked == 0 {
        assert(first_of(all, asked) =~= Seq::empty());
    } else if answers.len() == 0 {
        let fewer = (asked - 1) as nat;
        law_records_are_read_back(answers, behind, fewer);
        assert(first_of(all, asked) =~= seq![None] + first_of(all, fewer));
    } else {
        let first = answers[0];
        let later = answers.skip(1);
        let bytes = wire_answers(later) + behind;
        assert forall|i: int| 0 <= i < later.len() implies (#[trigger] later[i]).wf() by {
            assert(later[i] == answers[i + 1]);
        }
        assert(left.bytes =~= first.wire() + bytes);
        assert(answers[0].wf());
        lemma_read_answer(first, bytes, answers.len());
        if address_in(first.rr_type as int, first.class as int, first.data) is None {
            law_records_are_read_back(later, behind, asked);
        } else {
            let fewer = (asked - 1) as nat;
            law_records_are_read_back(later, behind, fewer);
            assert(first_of(all, asked) =~= seq![Some(all[0])] + first_of(items(later), fewer));
        }
    }
}

/// The header of a packet: an identifier, the flags, and the numbers of
/// questions, answers, authorities and additional records.
pub open spec fn header(
    id: u16,
    flags: u16,
    questions: u16,
    answers: u16,
    authorities: u16,
    additional: u16,
) -> Seq<u8> {
    u16_bytes(id) + u16_bytes(flags) + u16_bytes(questions) + u16_bytes(answers) + u16_bytes(
        authorities,
    ) + u16_bytes(additional)
}

/// A response with answers, whatever questions it repeats and whatever records
/// of other sorts it holds, gives just what its answers give, in their order, and
/// then ends.
pub proof fn law_response_gives_the_addresses(
    id: u16,
    flags: u16,
    questions: Seq<Question>,
    answers: Seq<Answer>,
    authorities: u16,
    additional: u16,
    behind: Seq<u8>,
    asked: nat,
)
    requires
        flags >= RESPONSE_FLAG,
        flags % 16 == 0,
        questions.len() <= 0xffff,
        forall|i: int| 0 <= i < questions.len() ==> (#[trigger] questions[i]).wf(),
        0 < answers.len() <= 0xffff,
        forall|i: int| 0 <= i < answers.len() ==> (#[trigger] answers[i]).wf(),
    ensures
        ({
            let packet = header(
                id,
                flags,
                questions.len() as u16,
                answers.len() as u16,
                authorities,
                additional,
            ) + wire_questions(questions) + wire_answers(answers) + behind;
            match response(packet) {
                Ok(left) => handed_out(left, asked) == first_of(items(answers), asked),
                Err(_) => false,
            }
        }),
{
    let head = header(
        id,
        flags,
        questions.len() as u16,
        answers.len() as u16,
        authorities,
        additional,
    );
    let repeated = wire_questions(questions);
    let rest = wire_answers(answers) + behind;
    let packet = head + repeated + wire_answers(answers) + behind;
    assert(packet =~= head + repeated + rest);
    assert(packet.subrange(2, 4) =~= u16_bytes(flags));
    assert(packet.subrange(4, 6) =~= u16_bytes(questions.len() as u16));
    assert(packet.subrange(6, 8) =~= u16_bytes(answers.len() as u16));
    lemma_u16_read_back(flags, packet, 2);
    lemma_u16_read_back(questions.len() as u16, packet, 4);
    lemma_u16_read_back(answers.len() as u16, packet, 6);
    assert(rest.len() > 0) by {
        assert(answers[0].wf());
        lemma_name_end_bounds(answers[0].name, 0);
    }
    law_questions_are_skipped(head, questions, rest);
    assert(packet.skip((head.len() + repeated.len()) as int) =~= rest);
    law_records_are_read_back(answers, behind, asked);
}

/// A response about a domain that does not exist, or without an answer, says
/// that nothing was found, whatever else it holds.
pub proof fn law_no_such_domain_is_not_found(bytes: Seq<u8>)
    requires
        bytes.len() >= HEADER_SIZE,
        u16_at(bytes, 2) >= RESPONSE_FLAG,
        u16_at(bytes, 2) % 16 == NO_SUCH_DOMAIN || u16_at(bytes, 6) == 0,
    ensures
        response(bytes) == Err::<RecordsView, ErrorKind>(ErrorKind::NotFound),
{
}

/// Which of the packets that arrive one after the other is taken for the
/// response, while the exchange goes on as it tells.
pub open spec fn taken(exchange: ExchangeView, packets: Seq<(SocketAddress, usize)>) -> Option<
    usize,
>
    decreases packets.len(),
{
    if packets.len() == 0 {
        None
    } else {
        let happened = Happened::<()>::Received { size: packets[0].1, sender: packets[0].0 };
        match exchange.todo(happened) {
            Todo::Parse { size } => Some(size),
            _ => taken(exchange.after(happened), packets.skip(1)),
        }
    }
}

/// The first packet that comes from the server is taken for the response;
/// packets from others are dropped, however many there are.
pub proof fn law_only_the_server_is_heard(
    exchange: ExchangeView,
    packets: Seq<(SocketAddress, usize)>,
    first: int,
)
    requires
        exchange.stage == Stage::Receiving,
        0 <= first <= packets.len(),
        forall|i: int| 0 <= i < first ==> (#[trigger] packets[i]).0 != exchange.server,
        first < packets.len() ==> packets[first].0 == exchange.server,
    ensures
        taken(exchange, packets) == (if first < packets.len() {
            Some(packets[first].1)
        } else {
            None
        }),
    decreases packets.len(),
{
    if first > 0 {
        let later = packets.skip(1);
        assert(packets[0].0 != exchange.server);
        assert forall|i: int| 0 <= i < first - 1 implies (#[trigger] later[i]).0
            != exchange.server by {
            assert(later[i] == packets[i + 1]);
        }
        law_only_the_server_is_heard(exchange, later, first - 1);
    }
}

} // verus!
