use rdns::client::{frame_tcp, tcp_length, QueryClient, Step, Transport};
use rdns::domain_name::DomainName;
use rdns::header::{header_parser, unpack_flags, Header, Opcode, ReturnCode};
use rdns::message::{parse, Message};
use rdns::name::Name;
use rdns::question::Question;
use rdns::resource_record::{
    parse as parse_record, parse_rdata, wks_bitmap_of, Protocol, RecordData, ResourceRecord, MX, TXT, WKS,
};
use rdns::{Class, Error, Type};

fn labels(parts: &[&str]) -> Vec<String> {
    parts.iter().map(|p| p.to_string()).collect()
}

fn name(parts: &[&str]) -> DomainName {
    DomainName::new(labels(parts))
}

/// A response to `protonmail.ch A IN`: a CNAME to `mail.protonmail.ch`
/// (written as `mail` and a pointer to the question name), then an A record
/// whose owner is a pointer into the CNAME's payload.
fn protonmail_response() -> Vec<u8> {
    let mut b = vec![0x12, 0x34, 0x81, 0x80, 0, 1, 0, 2, 0, 0, 0, 0];
    b.push(10);
    b.extend_from_slice(b"protonmail");
    b.push(2);
    b.extend_from_slice(b"ch");
    b.push(0);
    b.extend_from_slice(&[0, 1, 0, 1]);
    // answer 1 at offset 31
    b.extend_from_slice(&[0xC0, 12, 0, 5, 0, 1, 0, 0, 1, 0x2C, 0, 7]);
    b.push(4);
    b.extend_from_slice(b"mail");
    b.extend_from_slice(&[0xC0, 12]);
    // answer 2 at offset 50, owner is the name at offset 43
    b.extend_from_slice(&[0xC0, 43, 0, 1, 0, 1, 0, 0, 0, 0x3C, 0, 4, 185, 70, 42, 37]);
    b
}

fn label_strings(n: &DomainName) -> Vec<String> {
    n.labels().to_vec()
}

#[test]
fn end_to_end_cname_and_a_with_pointers() {
    let bytes = protonmail_response();
    assert_eq!(bytes.len(), 66);
    let m = parse(&bytes).unwrap();
    assert!(m.is_answer());
    assert!(!m.is_question());
    assert_eq!(m.header().id(), 0x1234);
    assert_eq!(m.questions().len(), 1);
    assert_eq!(m.answers().len(), 2);
    assert_eq!(m.authorities().len(), 0);
    assert_eq!(m.additional_records().len(), 0);
    assert_eq!(label_strings(m.questions()[0].name()), labels(&["protonmail", "ch"]));
    match m.answers()[0].rdata() {
        RecordData::CName(c) => {
            assert_eq!(label_strings(c.cname()), labels(&["mail", "protonmail", "ch"]))
        }
        other => panic!("unexpected {:?}", other),
    }
    assert_eq!(label_strings(m.answers()[1].name()), labels(&["mail", "protonmail", "ch"]));
    assert_eq!(m.answers()[1].ttl(), 60);
    match m.answers()[1].rdata() {
        RecordData::A(a) => assert_eq!(a.address(), 0xB9462A25),
        other => panic!("unexpected {:?}", other),
    }
}

#[test]
fn trailing_bytes_are_a_format_error() {
    let mut bytes = protonmail_response();
    bytes.push(0);
    assert_eq!(parse(&bytes).unwrap_err(), Error::FormatError);
}

#[test]
fn missing_record_is_a_format_error() {
    let bytes = protonmail_response();
    assert_eq!(parse(&bytes[..50]).unwrap_err(), Error::FormatError);
    assert_eq!(parse(&bytes[..11]).unwrap_err(), Error::FormatError);
}

#[test]
fn header_round_trip() {
    let h = Header::new(
        Some(0xBEEF),
        true,
        Opcode::ServerStatusReport,
        true,
        false,
        true,
        false,
        ReturnCode::Refused,
    );
    let mut out = Vec::new();
    h.write_to(&mut out);
    assert_eq!(out, vec![0xBE, 0xEF, 0x80 | (2 << 3) | 0x04 | 0x01, 0x05]);
    let (back, next) = header_parser(&out, 0).unwrap();
    assert_eq!(back, h);
    assert_eq!(next, 4);
}

#[test]
fn header_reserved_bits_ignored() {
    let h = unpack_flags(7, 0x0070 | 0x0003);
    assert_eq!(h.response_code(), ReturnCode::NameError);
    assert!(!h.recursion_available());
    assert_eq!(h.opcode(), Opcode::Query);
    let h2 = unpack_flags(7, 0xFFFF);
    assert_eq!(h2.opcode(), Opcode::Unknown(15));
    assert_eq!(h2.response_code(), ReturnCode::Unknown(15));
    assert!(h2.is_answer && h2.authoritive_answer() && h2.truncation());
    assert!(h2.recursion_desired() && h2.recursion_available());
    assert_eq!(h2.flags(), 0xFF8F);
}

#[test]
fn header_new_without_id_keeps_fields() {
    let h = Header::new_question(Opcode::InverseQuery, true);
    assert_eq!(h.opcode(), Opcode::InverseQuery);
    assert!(h.recursion_desired());
    assert!(!h.is_answer);
    assert_eq!(h.response_code(), ReturnCode::NoError);
}

#[test]
fn name_round_trip() {
    let n = name(&["www", "example", "com"]);
    let bytes = n.to_bytes();
    assert_eq!(
        bytes,
        vec![3, b'w', b'w', b'w', 7, b'e', b'x', b'a', b'm', b'p', b'l', b'e', 3, b'c', b'o', b'm', 0]
    );
    let (back, end) = DomainName::parse(&bytes, 0, bytes.len()).unwrap();
    assert_eq!(label_strings(&back), labels(&["www", "example", "com"]));
    assert_eq!(end, bytes.len());
    assert_eq!(Name::new(labels(&["www", "example", "com"])).to_bytes(), bytes);
}

#[test]
fn name_with_utf8_label_round_trip() {
    let n = name(&["bücher", "de"]);
    let bytes = n.to_bytes();
    assert_eq!(bytes[0], 7);
    let (back, _) = DomainName::parse(&bytes, 0, bytes.len()).unwrap();
    assert_eq!(label_strings(&back), labels(&["bücher", "de"]));
}

#[test]
fn root_name() {
    let (back, end) = DomainName::parse(&[0], 0, 1).unwrap();
    assert!(back.labels().is_empty());
    assert_eq!(end, 1);
}

#[test]
fn invalid_utf8_label_is_a_format_error() {
    let bytes = [2, 0xC3, 0x28, 0];
    assert_eq!(DomainName::parse(&bytes, 0, 4).unwrap_err(), Error::FormatError);
}

#[test]
fn label_beyond_limit_is_a_format_error() {
    let bytes = [3, b'a', b'b', b'c', 0];
    assert_eq!(DomainName::parse(&bytes, 0, 4).unwrap_err(), Error::FormatError);
    assert_eq!(DomainName::parse(&bytes, 0, 5).unwrap().1, 5);
}

#[test]
fn pointer_suffix_is_appended() {
    // "example.com" at 0, then "www" and a pointer to 0 at 13
    let mut b = vec![7];
    b.extend_from_slice(b"example");
    b.push(3);
    b.extend_from_slice(b"com");
    b.push(0);
    b.push(3);
    b.extend_from_slice(b"www");
    b.extend_from_slice(&[0xC0, 0]);
    let (n, end) = DomainName::parse(&b, 13, b.len()).unwrap();
    assert_eq!(label_strings(&n), labels(&["www", "example", "com"]));
    assert_eq!(end, 19);
}

#[test]
fn self_pointer_is_rejected() {
    let b = [0xC0, 0x00];
    assert_eq!(DomainName::parse(&b, 0, 2).unwrap_err(), Error::FormatError);
}

#[test]
fn pointer_cycle_is_rejected() {
    // at 0: "a" then a pointer to 4; at 4: "b" then a pointer to 0
    let b = [1, b'a', 0xC0, 4, 1, b'b', 0xC0, 0];
    assert_eq!(DomainName::parse(&b, 4, 8).unwrap_err(), Error::FormatError);
    assert_eq!(DomainName::parse(&b, 0, 8).unwrap_err(), Error::FormatError);
}

#[test]
fn reserved_label_prefix_is_a_format_error() {
    assert_eq!(DomainName::parse(&[0x40, 0], 0, 2).unwrap_err(), Error::FormatError);
    assert_eq!(DomainName::parse(&[0x80, 0], 0, 2).unwrap_err(), Error::FormatError);
}

#[test]
fn query_round_trip() {
    let q1 = Question::new(name(&["proton", "me"]), Type::A, Class::Internet);
    let q2 = Question::new(name(&["example", "org"]), Type::MX, Class::Unknown(77));
    let m = Message::new_query(true, vec![q1, q2]);
    let bytes = m.to_bytes().unwrap();
    assert_eq!(&bytes[4..12], &[0, 2, 0, 0, 0, 0, 0, 0]);
    let back = parse(&bytes).unwrap();
    assert_eq!(back.header(), m.header());
    assert_eq!(back.questions().len(), 2);
    assert_eq!(label_strings(back.questions()[0].name()), labels(&["proton", "me"]));
    assert_eq!(back.questions()[0].question_type(), Type::A);
    assert_eq!(back.questions()[0].class(), Class::Internet);
    assert_eq!(label_strings(back.questions()[1].name()), labels(&["example", "org"]));
    assert_eq!(back.questions()[1].question_type(), Type::MX);
    assert_eq!(back.questions()[1].class(), Class::Unknown(77));
    assert!(back.answers().is_empty());
    assert!(back.is_question());
}

#[test]
fn question_bytes_exact() {
    let q = Question::new(name(&["a"]), Type::TXT, Class::Chaos);
    assert_eq!(q.to_bytes(), vec![1, b'a', 0, 0, 16, 0, 3]);
}

#[test]
fn overlong_label_is_not_writable() {
    let long = "x".repeat(64);
    let m = Message::new_query(
        false,
        vec![Question::new(DomainName::new(vec![long]), Type::A, Class::Internet)],
    );
    assert_eq!(m.to_bytes().unwrap_err(), Error::OutOfRange);
    assert!(!m.questions()[0].name().fits_wire());
    let (_, first) = QueryClient::start(&m, false);
    match first {
        Step::Failed(e) => assert_eq!(e, Error::OutOfRange),
        other => panic!("unexpected {:?}", other),
    }
}

#[test]
fn inverse_query_uses_answer_section() {
    let m = Message::new_inverse_query(false, Vec::new());
    assert_eq!(m.header().opcode(), Opcode::InverseQuery);
    assert!(m.questions().is_empty());
    assert!(!m.header().recursion_desired());
}

#[test]
fn type_and_class_codes() {
    assert_eq!(Type::from(15u16), Type::MX);
    assert_eq!(Type::from(999u16), Type::Unknown(999));
    assert_eq!(u16::from(Type::ALL), 255);
    assert_eq!(u16::from(Type::Unknown(4242)), 4242);
    assert_eq!(Class::from(3u16), Class::Chaos);
    assert_eq!(u16::from(Class::All), 5);
    assert_eq!(Class::from_code(9), Class::Unknown(9));
}

#[test]
fn wks_bitmap_first_bit_is_port_one() {
    let data = [10, 0, 0, 1, 6, 0x80];
    match parse_rdata(&data, Class::Internet, Type::WKS, 0, data.len()).unwrap() {
        RecordData::WKS(w) => {
            assert_eq!(w.address(), 0x0A000001);
            assert_eq!(w.protocol(), Protocol::TCP);
            assert_eq!(w.ports(), &[1]);
        }
        other => panic!("unexpected {:?}", other),
    }
}

#[test]
fn wks_bitmap_ports() {
    let data = [10, 0, 0, 1, 200, 0x41, 0x00, 0x01];
    match parse_rdata(&data, Class::Internet, Type::WKS, 0, data.len()).unwrap() {
        RecordData::WKS(w) => {
            assert_eq!(w.protocol(), Protocol::Unknown(200));
            assert_eq!(w.ports(), &[2, 8, 24]);
        }
        other => panic!("unexpected {:?}", other),
    }
}

#[test]
fn rdata_shapes() {
    let mx = [0, 10, 2, b'm', b'x', 0];
    match parse_rdata(&mx, Class::Internet, Type::MX, 0, mx.len()).unwrap() {
        RecordData::MX(r) => {
            assert_eq!(r.preference(), 10);
            assert_eq!(label_strings(r.exchange()), labels(&["mx"]));
        }
        other => panic!("unexpected {:?}", other),
    }
    let hinfo = [3, b'x', b'8', b'6', 5, b'L', b'i', b'n', b'u', b'x'];
    match parse_rdata(&hinfo, Class::Internet, Type::HINFO, 0, hinfo.len()).unwrap() {
        RecordData::HostInfo(r) => {
            assert_eq!(r.cpu(), "x86");
            assert_eq!(r.os(), "Linux");
        }
        other => panic!("unexpected {:?}", other),
    }
    let txt = [b'h', b'i', 0xE9];
    match parse_rdata(&txt, Class::Internet, Type::TXT, 0, txt.len()).unwrap() {
        RecordData::TXT(r) => assert_eq!(r.data(), "hi\u{e9}"),
        other => panic!("unexpected {:?}", other),
    }
    let mut soa = vec![1, b'a', 0, 1, b'b', 0];
    soa.extend_from_slice(&[0, 0, 0, 1, 0, 0, 0, 2, 0, 0, 0, 3, 0, 0, 0, 4, 0, 0, 0, 5]);
    match parse_rdata(&soa, Class::Internet, Type::SOA, 0, soa.len()).unwrap() {
        RecordData::SOA(r) => {
            assert_eq!(label_strings(r.primary_source_domain()), labels(&["a"]));
            assert_eq!(label_strings(r.responsible_person_email()), labels(&["b"]));
            assert_eq!(
                (r.serial(), r.refresh(), r.retry(), r.expire(), r.minimum()),
                (1, 2, 3, 4, 5)
            );
        }
        other => panic!("unexpected {:?}", other),
    }
    let minfo = [1, b'a', 0, 1, b'b', 0];
    match parse_rdata(&minfo, Class::Internet, Type::MINFO, 0, minfo.len()).unwrap() {
        RecordData::MInfo(r) => {
            assert_eq!(label_strings(r.responsible_mailbox()), labels(&["a"]));
            assert_eq!(label_strings(r.error_mailbox()), labels(&["b"]));
        }
        other => panic!("unexpected {:?}", other),
    }
    let null = [9, 8, 7];
    match parse_rdata(&null, Class::Chaos, Type::NULL, 0, null.len()).unwrap() {
        RecordData::Null(r) => assert_eq!(r.bytes(), &[9, 8, 7]),
        other => panic!("unexpected {:?}", other),
    }
}

#[test]
fn a_outside_internet_class_is_kept_opaque() {
    let data = [1, 2, 3, 4];
    match parse_rdata(&data, Class::Chaos, Type::A, 0, 4).unwrap() {
        RecordData::Unknown(c, t, b) => {
            assert_eq!(c, Class::Chaos);
            assert_eq!(t, Type::A);
            assert_eq!(b, vec![1, 2, 3, 4]);
        }
        other => panic!("unexpected {:?}", other),
    }
    match parse_rdata(&data, Class::Internet, Type::Unknown(99), 1, 3).unwrap() {
        RecordData::Unknown(_, t, b) => {
            assert_eq!(t, Type::Unknown(99));
            assert_eq!(b, vec![2, 3]);
        }
        other => panic!("unexpected {:?}", other),
    }
}

#[test]
fn rdata_of_wrong_length_is_a_format_error() {
    let data = [1, 2, 3, 4, 5];
    assert_eq!(
        parse_rdata(&data, Class::Internet, Type::A, 0, 5).unwrap_err(),
        Error::FormatError
    );
    let cname = [1, b'a', 0, 0];
    assert_eq!(
        parse_rdata(&cname, Class::Internet, Type::CNAME, 0, 4).unwrap_err(),
        Error::FormatError
    );
    let wks = [1, 2, 3, 4];
    assert_eq!(
        parse_rdata(&wks, Class::Internet, Type::WKS, 0, 4).unwrap_err(),
        Error::FormatError
    );
}

fn truncated_response(id_hi: u8, id_lo: u8) -> Vec<u8> {
    vec![id_hi, id_lo, 0x82, 0x00, 0, 0, 0, 0, 0, 0, 0, 0]
}

#[test]
fn truncated_udp_reply_falls_back_to_tcp() {
    let q = Question::new(name(&["proton", "me"]), Type::A, Class::Internet);
    let m = Message::new_query(true, vec![q]);
    let payload = m.to_bytes().unwrap();
    let (mut client, first) = QueryClient::start(&m, false);
    match first {
        Step::Send(Transport::Udp, bytes) => assert_eq!(bytes, payload),
        other => panic!("unexpected {:?}", other),
    }
    let next = client.on_udp_reply(&truncated_response(payload[0], payload[1]));
    assert_eq!(client.awaiting, Transport::Tcp);
    match next {
        Step::Send(Transport::Tcp, framed) => {
            assert_eq!(framed, frame_tcp(&payload));
            assert_eq!(&framed[2..], &payload[..]);
            assert_eq!(tcp_length([framed[0], framed[1]]) as usize, payload.len());
        }
        other => panic!("unexpected {:?}", other),
    }
    let tcp_reply = protonmail_response();
    match client.on_tcp_reply(tcp_reply.len() as u16, &tcp_reply) {
        Step::Done(r) => {
            assert!(!r.header().truncation());
            assert_eq!(r.answers().len(), 2);
        }
        other => panic!("unexpected {:?}", other),
    }
}

#[test]
fn untruncated_udp_reply_is_returned() {
    let m = Message::new_query(true, Vec::new());
    let (mut client, _) = QueryClient::start(&m, false);
    match client.on_udp_reply(&protonmail_response()) {
        Step::Done(r) => assert_eq!(r.header().id(), 0x1234),
        other => panic!("unexpected {:?}", other),
    }
    assert_eq!(client.awaiting, Transport::Udp);
}

#[test]
fn tcp_requested_directly() {
    let m = Message::new_query(false, Vec::new());
    let (client, first) = QueryClient::start(&m, true);
    assert_eq!(client.awaiting, Transport::Tcp);
    match first {
        Step::Send(Transport::Tcp, framed) => assert_eq!(&framed[..2], &[0, 12]),
        other => panic!("unexpected {:?}", other),
    }
}

#[test]
fn short_tcp_reply_is_a_transport_error() {
    let m = Message::new_query(false, Vec::new());
    let (client, _) = QueryClient::start(&m, true);
    let reply = protonmail_response();
    match client.on_tcp_reply(80, &reply) {
        Step::Failed(e) => assert_eq!(e, Error::TransportError),
        other => panic!("unexpected {:?}", other),
    }
    match client.on_tcp_reply(3, &reply[..3]) {
        Step::Failed(e) => assert_eq!(e, Error::FormatError),
        other => panic!("unexpected {:?}", other),
    }
    match client.on_transport_failure() {
        Step::Failed(e) => assert_eq!(e, Error::TransportError),
        other => panic!("unexpected {:?}", other),
    }
}

#[test]
fn dotted_text_to_labels() {
    let n = DomainName::from_dotted("proton.me");
    assert_eq!(label_strings(&n), labels(&["proton", "me"]));
    let n2: DomainName = "a.bü.".parse().unwrap();
    assert_eq!(label_strings(&n2), labels(&["a", "bü", ""]));
    let n3 = DomainName::from_dotted("");
    assert_eq!(label_strings(&n3), labels(&[""]));
}

#[test]
fn record_round_trip() {
    let rr = ResourceRecord::new(
        name(&["example", "com"]),
        Type::MX,
        Class::Internet,
        -2,
        RecordData::MX(MX::new(5, name(&["mail", "example", "com"]))),
    );
    let bytes = rr.to_bytes().unwrap();
    let mut expected = vec![7];
    expected.extend_from_slice(b"example");
    expected.push(3);
    expected.extend_from_slice(b"com");
    expected.extend_from_slice(&[0, 0, 15, 0, 1, 0xFF, 0xFF, 0xFF, 0xFE, 0, 20, 0, 5, 4]);
    expected.extend_from_slice(b"mail");
    expected.push(7);
    expected.extend_from_slice(b"example");
    expected.push(3);
    expected.extend_from_slice(b"com");
    expected.push(0);
    assert_eq!(bytes, expected);
    let (back, end) = parse_record(&bytes, 0).unwrap();
    assert_eq!(end, bytes.len());
    assert_eq!(back.ttl(), -2);
    assert_eq!(back.record_type(), Type::MX);
    match back.rdata() {
        RecordData::MX(m) => {
            assert_eq!(m.preference(), 5);
            assert_eq!(label_strings(m.exchange()), labels(&["mail", "example", "com"]));
        }
        other => panic!("unexpected {:?}", other),
    }
}

#[test]
fn wks_bitmap_written() {
    assert_eq!(wks_bitmap_of(&[1]), vec![0x80]);
    assert_eq!(wks_bitmap_of(&[24, 2, 8]), vec![0x41, 0x00, 0x01]);
    assert!(wks_bitmap_of(&[]).is_empty());
    let rr = ResourceRecord::new(
        name(&["h"]),
        Type::WKS,
        Class::Internet,
        0,
        RecordData::WKS(WKS::new(0x0A000001, Protocol::UDP, vec![53])),
    );
    let bytes = rr.to_bytes().unwrap();
    let (back, _) = parse_record(&bytes, 0).unwrap();
    match back.rdata() {
        RecordData::WKS(w) => {
            assert_eq!(w.protocol(), Protocol::UDP);
            assert_eq!(w.ports(), &[53]);
        }
        other => panic!("unexpected {:?}", other),
    }
}

#[test]
fn text_outside_one_byte_range_is_not_writable() {
    let rr = ResourceRecord::new(
        name(&["t"]),
        Type::TXT,
        Class::Internet,
        0,
        RecordData::TXT(TXT::new("snow \u{2603}".to_string())),
    );
    assert_eq!(rr.to_bytes().unwrap_err(), Error::OutOfRange);
    let ok = ResourceRecord::new(
        name(&["t"]),
        Type::TXT,
        Class::Internet,
        0,
        RecordData::TXT(TXT::new("caf\u{e9}".to_string())),
    );
    let bytes = ok.to_bytes().unwrap();
    assert_eq!(&bytes[bytes.len() - 4..], &[b'c', b'a', b'f', 0xE9]);
}

#[test]
fn response_written_and_read_again() {
    let m = parse(&protonmail_response()).unwrap();
    let bytes = m.to_bytes().unwrap();
    let again = parse(&bytes).unwrap();
    assert_eq!(again.header(), m.header());
    assert_eq!(again.answers().len(), 2);
    match again.answers()[0].rdata() {
        RecordData::CName(c) => {
            assert_eq!(label_strings(c.cname()), labels(&["mail", "protonmail", "ch"]))
        }
        other => panic!("unexpected {:?}", other),
    }
    assert_eq!(label_strings(again.answers()[1].name()), labels(&["mail", "protonmail", "ch"]));
}
