use ground::dns::exchange::{Happened, Todo};
use ground::dns::query::can_query;
use ground::dns::{
    make_query_packet, name_size, parse_response_packet, query, Address, AddressFamily, Record,
    C_IN, TYPE_A, TYPE_AAAA,
};
use ground::error::ErrorKind;
use ground::net::SocketAddress;

const QUESTION: &[u8] = b"\x07example\x03org\x00\x00\x1c\x00\x01";

/// A response: its flags, its questions, and its answers with their number.
fn packet(flags: u16, questions: &[&[u8]], answer_count: u16, answers: &[&[u8]]) -> Vec<u8> {
    let mut bytes = vec![0xab, 0xcd];
    bytes.extend_from_slice(&flags.to_be_bytes());
    bytes.extend_from_slice(&(questions.len() as u16).to_be_bytes());
    bytes.extend_from_slice(&answer_count.to_be_bytes());
    bytes.extend_from_slice(&[0, 0, 0, 0]);
    for question in questions {
        bytes.extend_from_slice(question);
    }
    for answer in answers {
        bytes.extend_from_slice(answer);
    }
    bytes
}

fn answer(name: &[u8], rr_type: u16, class: u16, ttl: u32, data: &[u8]) -> Vec<u8> {
    let mut bytes = name.to_vec();
    bytes.extend_from_slice(&rr_type.to_be_bytes());
    bytes.extend_from_slice(&class.to_be_bytes());
    bytes.extend_from_slice(&ttl.to_be_bytes());
    bytes.extend_from_slice(&(data.len() as u16).to_be_bytes());
    bytes.extend_from_slice(data);
    bytes
}

const V6: [u8; 16] = [0x26, 6, 0x28, 0, 2, 0x20, 0, 1, 2, 0x48, 0x18, 0x93, 0x25, 0xc8, 0x19, 0x46];

#[test]
fn address_families_have_their_types() {
    assert_eq!(AddressFamily::IPv4.as_type(), 1);
    assert_eq!(AddressFamily::IPv6.as_type(), 28);
}

#[test]
fn query_packet_is_built_in_front_of_the_buffer() {
    let mut buffer = [0xee; 40];
    let size = make_query_packet(b"example.org", &mut buffer, TYPE_AAAA);
    assert_eq!(size, 29);
    assert_eq!(&buffer[..12], &[0, 0, 1, 0x20, 0, 1, 0, 0, 0, 0, 0, 0]);
    assert_eq!(&buffer[12..29], QUESTION);
    assert_eq!(&buffer[29..], &[0xee; 11]);
}

#[test]
fn empty_labels_are_left_out() {
    let mut buffer = [0; 64];
    let size = make_query_packet(b"..example..org.", &mut buffer, TYPE_AAAA);
    assert_eq!(&buffer[12..size], QUESTION);
}

#[test]
fn root_is_a_name_without_labels() {
    let mut buffer = [7; 17];
    assert_eq!(make_query_packet(b"", &mut buffer, TYPE_A), 17);
    assert_eq!(&buffer[12..], &[0, 0, 1, 0, 1]);
    let mut buffer = [7; 17];
    assert_eq!(make_query_packet(b".", &mut buffer, TYPE_A), 17);
    assert_eq!(&buffer[12..], &[0, 0, 1, 0, 1]);
}

#[test]
fn longest_label_fits_and_a_longer_one_does_not() {
    let name = [b'a'; 127];
    assert!(can_query(&name, 512));
    let mut buffer = [0; 512];
    let size = make_query_packet(&name, &mut buffer, TYPE_A);
    assert_eq!(size, 12 + 1 + 127 + 1 + 4);
    assert_eq!(buffer[12], 127);
    assert!(!can_query(&[b'a'; 128], 512));
    assert!(!can_query(&[b"ok.".to_vec(), vec![b'a'; 128]].concat(), 512));
}

#[test]
fn query_needs_room_for_all_of_it() {
    assert!(can_query(b"example.org", 29));
    assert!(!can_query(b"example.org", 28));
    assert!(!can_query(b"", 16));
    assert!(can_query(b"", 17));
    assert!(!can_query(b"", 0));
}

#[test]
fn names_end_with_a_zero_or_a_pointer() {
    assert_eq!(name_size(b"\x07example\x03org\x00rest"), Ok(13));
    assert_eq!(name_size(&[0]), Ok(1));
    assert_eq!(name_size(&[0xc0, 0x0c, 1]), Ok(2));
    assert_eq!(name_size(b"\x01a\xc0\x0c"), Ok(4));
    assert_eq!(name_size(&[128, 1]), Ok(2));
}

#[test]
fn names_that_do_not_end_are_malformed() {
    assert_eq!(name_size(&[]), Err(ErrorKind::InvalidData));
    assert_eq!(name_size(&[0xc0]), Err(ErrorKind::InvalidData));
    assert_eq!(name_size(b"\x01a"), Err(ErrorKind::InvalidData));
    assert_eq!(name_size(b"\x05a"), Err(ErrorKind::InvalidData));
    assert_eq!(name_size(b"\x01a\x7f"), Err(ErrorKind::InvalidData));
}

#[test]
fn size_of_a_sent_name_is_found_again() {
    let mut buffer = [0xff; 64];
    let size = make_query_packet(b"a.bc.def", &mut buffer, TYPE_A);
    assert_eq!(name_size(&buffer[12..]), Ok(size - 12 - 4));
}

#[test]
fn query_is_no_response() {
    let mut buffer = [0; 64];
    make_query_packet(b"example.org", &mut buffer, TYPE_A);
    assert_eq!(parse_response_packet(&buffer).unwrap_err(), ErrorKind::InvalidData);
}

#[test]
fn short_packet_is_malformed() {
    assert_eq!(parse_response_packet(&[]).unwrap_err(), ErrorKind::InvalidData);
    assert_eq!(parse_response_packet(&[0xff; 11]).unwrap_err(), ErrorKind::InvalidData);
}

#[test]
fn non_existent_domain_is_not_found() {
    let bytes = packet(0x8183, &[QUESTION], 0, &[]);
    assert_eq!(parse_response_packet(&bytes).unwrap_err(), ErrorKind::NotFound);
    let a = answer(&[0xc0, 12], TYPE_A, C_IN, 1, &[1, 2, 3, 4]);
    let bytes = packet(0x8183, &[QUESTION], 1, &[&a]);
    assert_eq!(parse_response_packet(&bytes).unwrap_err(), ErrorKind::NotFound);
}

#[test]
fn response_without_answers_is_not_found() {
    let bytes = packet(0x8180, &[QUESTION], 0, &[]);
    assert_eq!(parse_response_packet(&bytes).unwrap_err(), ErrorKind::NotFound);
    let bytes = packet(0x8182, &[QUESTION], 0, &[]);
    assert_eq!(parse_response_packet(&bytes).unwrap_err(), ErrorKind::NotFound);
}

#[test]
fn other_response_codes_are_other_errors() {
    let a = answer(&[0xc0, 12], TYPE_A, C_IN, 1, &[1, 2, 3, 4]);
    let bytes = packet(0x8182, &[QUESTION], 1, &[&a]);
    assert_eq!(parse_response_packet(&bytes).unwrap_err(), ErrorKind::Other);
}

#[test]
fn cut_off_questions_are_malformed() {
    let bytes = packet(0x8180, &[QUESTION], 1, &[]);
    assert_eq!(parse_response_packet(&bytes).unwrap_err(), ErrorKind::InvalidData);
    let bytes = packet(0x8180, &[&QUESTION[..10]], 1, &[]);
    assert_eq!(parse_response_packet(&bytes).unwrap_err(), ErrorKind::InvalidData);
    let bytes = packet(0x8180, &[&QUESTION[..15]], 1, &[]);
    assert_eq!(parse_response_packet(&bytes).unwrap_err(), ErrorKind::InvalidData);
    let bytes = packet(0x8180, &[QUESTION, &[5]], 1, &[]);
    assert_eq!(parse_response_packet(&bytes).unwrap_err(), ErrorKind::InvalidData);
}

#[test]
fn address_records_are_read_in_their_order() {
    let answers = [
        answer(&[0xc0, 12], 5, C_IN, 9, b"\x01x\x00"),
        answer(&[0xc0, 12], TYPE_AAAA, C_IN, 0x0001_0203, &V6),
        answer(&[0xc0, 12], TYPE_A, 3, 7, &[9, 9, 9, 9]),
        answer(b"\x01x\x00", TYPE_A, C_IN, 60, &[93, 184, 216, 34]),
        answer(&[0], TYPE_A, 4, 7, &[]),
    ];
    let parts: Vec<&[u8]> = answers.iter().map(|a| &a[..]).collect();
    let bytes = packet(0x8180, &[QUESTION], 5, &parts);
    let mut records = parse_response_packet(&bytes).unwrap();
    let mut again = records.clone();
    let first = Record { address: Address::V6(V6), ttl: 66051 };
    let second = Record { address: Address::V4([93, 184, 216, 34]), ttl: 60 };
    assert_eq!(records.next(), Some(Ok(first)));
    assert_eq!(records.next(), Some(Ok(second)));
    assert_eq!(records.next(), None);
    assert_eq!(records.next(), None);
    assert_eq!(again.next(), Some(Ok(first)));
}

#[test]
fn responses_may_repeat_no_question_or_several() {
    let a = answer(&[0], TYPE_A, C_IN, 5, &[1, 2, 3, 4]);
    for questions in [&[][..], &[QUESTION, QUESTION][..]] {
        let bytes = packet(0x8000, questions, 1, &[&a]);
        let mut records = parse_response_packet(&bytes).unwrap();
        let record = Record { address: Address::V4([1, 2, 3, 4]), ttl: 5 };
        assert_eq!(records.next(), Some(Ok(record)));
        assert_eq!(records.next(), None);
    }
}

#[test]
fn no_more_records_than_the_packet_claims() {
    let a = answer(&[0], TYPE_A, C_IN, 5, &[1, 2, 3, 4]);
    let bytes = packet(0x8000, &[], 1, &[&a, &a]);
    let mut records = parse_response_packet(&bytes).unwrap();
    assert!(matches!(records.next(), Some(Ok(_))));
    assert_eq!(records.next(), None);
}

#[test]
fn address_of_wrong_length_is_an_error_and_is_passed_over() {
    let short = answer(&[0], TYPE_A, C_IN, 5, &[1, 2, 3]);
    let long = answer(&[0], TYPE_AAAA, C_IN, 5, &[1; 17]);
    let good = answer(&[0], TYPE_A, C_IN, 5, &[1, 2, 3, 4]);
    let bytes = packet(0x8000, &[], 3, &[&short, &long, &good]);
    let mut records = parse_response_packet(&bytes).unwrap();
    assert_eq!(records.next(), Some(Err(ErrorKind::InvalidData)));
    assert_eq!(records.next(), Some(Err(ErrorKind::InvalidData)));
    assert!(matches!(records.next(), Some(Ok(_))));
    assert_eq!(records.next(), None);
}

#[test]
fn names_of_answers_do_not_matter() {
    let mut items = Vec::new();
    for name in [&b"\x01a\0"[..], &b"\xc0\x0c"[..], &b"\0"[..]] {
        let good = answer(name, 1, 1, 300, &[10, 0, 0, 1]);
        let bad = answer(name, 1, 1, 300, &[10, 0, 0]);
        let bytes = packet(0x8180, &[], 2, &[&bad, &good]);
        let mut records = parse_response_packet(&bytes).unwrap();
        items.push((records.next(), records.next(), records.next()));
    }
    let record = Record { address: Address::V4([10, 0, 0, 1]), ttl: 300 };
    assert_eq!(items[0], (Some(Err(ErrorKind::InvalidData)), Some(Ok(record)), None));
    assert_eq!(items[1], items[0]);
    assert_eq!(items[2], items[0]);
}

#[test]
fn cut_off_answers_are_errors() {
    let a = answer(&[0], TYPE_A, C_IN, 5, &[1, 2, 3, 4]);
    for size in [1, 10, 11, 14] {
        let bytes = packet(0x8000, &[], 1, &[&a[..size]]);
        let mut records = parse_response_packet(&bytes).unwrap();
        assert_eq!(records.next(), Some(Err(ErrorKind::InvalidData)), "{}", size);
        assert!(matches!(records.next(), Some(Err(_))));
    }
    let bytes = packet(0x8000, &[], 2, &[&a]);
    let mut records = parse_response_packet(&bytes).unwrap();
    assert!(matches!(records.next(), Some(Ok(_))));
    assert_eq!(records.next(), Some(Err(ErrorKind::InvalidData)));
    assert_eq!(records.next(), Some(Err(ErrorKind::InvalidData)));
}

#[test]
fn query_is_exchanged_with_the_server_alone() {
    let server = SocketAddress::V4 { ipv4: 0x7f00_0035, port: 53 };
    let other = SocketAddress::V4 { ipv4: 0x7f00_0035, port: 54 };
    let mut buffer = [0u8; 512];
    let mut exchange = query(b"example.org", AddressFamily::IPv6, server, &mut buffer);
    assert_eq!(&buffer[12..29], QUESTION);
    let todo: Todo<()> = exchange.first();
    assert_eq!(todo, Todo::Bind(SocketAddress::V4 { ipv4: 0, port: 0 }));
    let todo: Todo<()> = exchange.step(Happened::Bound);
    assert_eq!(todo, Todo::Send { size: 29, to: server });
    let todo: Todo<()> = exchange.step(Happened::Sent);
    assert_eq!(todo, Todo::Receive);
    for size in [40, 41] {
        let todo: Todo<()> = exchange.step(Happened::Received { size, sender: other });
        assert_eq!(todo, Todo::Receive);
    }
    let todo: Todo<()> = exchange.step(Happened::Received { size: 42, sender: server });
    assert_eq!(todo, Todo::Parse { size: 42 });
}

#[test]
fn exchange_gives_up_on_errors() {
    let server = SocketAddress::V6 { ipv6: 1, port: 53, flowinfo: 0, scope_id: 2 };
    let mut buffer = [0u8; 64];
    let mut exchange = query(b"a", AddressFamily::IPv4, server, &mut buffer);
    let todo: Todo<u8> = exchange.first();
    let any = SocketAddress::V6 { ipv6: 0, port: 0, flowinfo: 0, scope_id: 0 };
    assert_eq!(todo, Todo::Bind(any));
    assert_eq!(exchange.step(Happened::Failed(9u8)), Todo::GiveUp(9));
}
