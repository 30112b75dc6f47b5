//! Tests of the DHCPv6 wire codec: round trips, length accounting, the
//! transaction-id mask, and the malformed-input rules.

use dhcpv6_client::ip::Ipv6Address;
use dhcpv6_client::wire::{
    Dhcpv6Option, Dhcpv6OptionWriter, MessageType, Packet, Repr, ReprDnsServers, ReprIaAddr,
    ReprIaNa, ReprIaTa, ReprStatusCode, StatusCode,
};

fn addr(last: u8) -> Ipv6Address {
    let mut octets = [0u8; 16];
    octets[0] = 0x20;
    octets[1] = 0x01;
    octets[2] = 0x0d;
    octets[3] = 0xb8;
    octets[15] = last;
    Ipv6Address::new(octets)
}

fn emit_bytes(r: &Repr) -> Vec<u8> {
    let len = r.buffer_len();
    let mut p = Packet::new_unchecked(vec![0u8; len]);
    r.emit(&mut p).expect("emit into exact buffer");
    p.into_inner()
}

fn sample_repr() -> Repr {
    Repr {
        message_type: MessageType::Advertise,
        transaction_id: 0x00ABCDEF,
        client_id: Some(vec![0x11, 0x22, 0x33, 0x44, 0x55, 0x66]),
        server_id: Some(vec![0xAA, 0xBB]),
        elapsed_time: Some(0x1234),
        request_options: Some(vec![23, 24]),
        ia_na: Some(ReprIaNa {
            iaid: 0x01020304,
            t1: 3600,
            t2: 5760,
            addresses: vec![ReprIaAddr {
                addr: addr(0x10),
                preferred_lifetime: 604800,
                valid_lifetime: 2592000,
                additional_options: Vec::new(),
            }],
            status_code: Some(ReprStatusCode {
                status_code: StatusCode::Success,
                status_message: b"all good".to_vec(),
            }),
            additional_options: Vec::new(),
        }),
        ia_ta: None,
        dns_servers: Some(ReprDnsServers {
            addresses: vec![addr(0x53), addr(0x54)],
        }),
        additional_options: Vec::new(),
    }
}

#[test]
fn roundtrip_full_repr() {
    let r = sample_repr();
    let bytes = emit_bytes(&r);
    let packet = Packet::new_checked(bytes).expect("header present");
    let parsed = Repr::parse(&packet).expect("parse emitted packet");
    assert_eq!(parsed.message_type, MessageType::Advertise);
    assert_eq!(parsed.transaction_id, 0x00ABCDEF);
    assert_eq!(parsed.client_id, r.client_id);
    assert_eq!(parsed.server_id, r.server_id);
    assert_eq!(parsed.elapsed_time, Some(0x1234));
    assert_eq!(parsed.request_options, Some(vec![23, 24]));
    let ia = parsed.ia_na.expect("ia_na comes back");
    assert_eq!(ia.iaid, 0x01020304);
    assert_eq!(ia.t1, 3600);
    assert_eq!(ia.t2, 5760);
    assert_eq!(ia.addresses.len(), 1);
    assert_eq!(ia.addresses[0].addr.octets, addr(0x10).octets);
    assert_eq!(ia.addresses[0].preferred_lifetime, 604800);
    assert_eq!(ia.addresses[0].valid_lifetime, 2592000);
    let sc = ia.status_code.expect("status code comes back");
    assert_eq!(sc.status_code, StatusCode::Success);
    assert_eq!(sc.status_message, b"all good".to_vec());
    assert!(parsed.ia_ta.is_none());
    let dns = parsed.dns_servers.expect("dns servers come back");
    assert_eq!(dns.addresses.len(), 2);
    assert_eq!(dns.addresses[0].octets, addr(0x53).octets);
    assert!(parsed.additional_options.is_empty());
}

#[test]
fn roundtrip_minimal_repr() {
    let r = Repr {
        message_type: MessageType::Solicit,
        transaction_id: 7,
        client_id: None,
        server_id: None,
        elapsed_time: None,
        request_options: None,
        ia_na: None,
        ia_ta: None,
        dns_servers: None,
        additional_options: Vec::new(),
    };
    assert_eq!(r.buffer_len(), 4);
    let bytes = emit_bytes(&r);
    assert_eq!(bytes, vec![1, 0, 0, 7]);
    let packet = Packet::new_unchecked(bytes);
    let parsed = Repr::parse(&packet).unwrap();
    assert_eq!(parsed.message_type, MessageType::Solicit);
    assert_eq!(parsed.transaction_id, 7);
    assert!(parsed.client_id.is_none());
    assert!(parsed.ia_na.is_none());
}

#[test]
fn roundtrip_ia_ta() {
    let r = Repr {
        message_type: MessageType::Reply,
        transaction_id: 99,
        client_id: None,
        server_id: None,
        elapsed_time: None,
        request_options: None,
        ia_na: None,
        ia_ta: Some(ReprIaTa {
            iaid: 0xCAFE,
            addresses: vec![ReprIaAddr {
                addr: addr(0x77),
                preferred_lifetime: 1,
                valid_lifetime: 2,
                additional_options: Vec::new(),
            }],
            status_code: None,
            additional_options: Vec::new(),
        }),
        dns_servers: None,
        additional_options: Vec::new(),
    };
    let bytes = emit_bytes(&r);
    let parsed = Repr::parse(&Packet::new_unchecked(bytes)).unwrap();
    let ia = parsed.ia_ta.expect("ia_ta comes back");
    assert_eq!(ia.iaid, 0xCAFE);
    assert_eq!(ia.addresses.len(), 1);
    assert_eq!(ia.addresses[0].addr.octets, addr(0x77).octets);
}

#[test]
fn transaction_id_masked_to_24_bits() {
    let mut r = sample_repr();
    r.transaction_id = 0xAABBCCDD;
    let bytes = emit_bytes(&r);
    let parsed = Repr::parse(&Packet::new_unchecked(bytes)).unwrap();
    assert_eq!(parsed.transaction_id, 0x00BBCCDD);
}

#[test]
fn emit_exact_buffer_succeeds_one_short_fails() {
    let r = sample_repr();
    let len = r.buffer_len();
    let mut exact = Packet::new_unchecked(vec![0u8; len]);
    assert!(r.emit(&mut exact).is_ok());
    let mut short = Packet::new_unchecked(vec![0u8; len - 1]);
    assert!(r.emit(&mut short).is_err());
    // On failure, not one byte of the buffer is written.
    assert_eq!(short.into_inner(), vec![0u8; len - 1]);
}

#[test]
fn emit_oversized_client_id_fails_clean() {
    let mut r = sample_repr();
    r.client_id = Some(vec![0x5A; 70000]);
    let mut p = Packet::new_unchecked(vec![0u8; 80000]);
    assert!(r.emit(&mut p).is_err());
    assert_eq!(p.into_inner(), vec![0u8; 80000]);
}

#[test]
fn option_writer_emits_and_advances() {
    let w = Dhcpv6OptionWriter::new(vec![0u8; 10]);
    let mut w = w;
    assert!(w
        .emit(&Dhcpv6Option { kind: 1, data: vec![0xEE, 0xFF] })
        .is_ok());
    assert!(w
        .emit(&Dhcpv6Option { kind: 2, data: vec![0x99] })
        .is_err());
    let buf = w.into_inner();
    assert_eq!(buf, vec![0, 1, 0, 2, 0xEE, 0xFF, 0, 0, 0, 0]);
}

#[test]
fn option_writer_rejects_oversized_data() {
    let mut w = Dhcpv6OptionWriter::new(vec![0u8; 8]);
    assert!(w
        .emit(&Dhcpv6Option { kind: 1, data: vec![0; 65536] })
        .is_err());
    assert_eq!(w.into_inner(), vec![0u8; 8]);
}

#[test]
fn parse_short_packet_fails() {
    assert!(Packet::new_checked(vec![1, 2, 3]).is_err());
    assert!(Repr::parse(&Packet::new_unchecked(vec![1, 2, 3])).is_err());
}

#[test]
fn parse_ignores_unknown_options_and_wrong_length_elapsed_time() {
    // header, then: unknown option 200 (2 bytes), elapsed-time of length 3
    // (ignored), elapsed-time of length 2 (taken).
    let bytes = vec![
        2, 0, 0, 1, //
        0, 200, 0, 2, 9, 9, //
        0, 8, 0, 3, 1, 2, 3, //
        0, 8, 0, 2, 0x12, 0x34,
    ];
    let parsed = Repr::parse(&Packet::new_unchecked(bytes)).unwrap();
    assert_eq!(parsed.elapsed_time, Some(0x1234));
    assert!(parsed.client_id.is_none());
}

#[test]
fn parse_stops_at_truncated_option() {
    // A client-id option, then an option whose declared length runs past
    // the buffer: the walker stops silently.
    let bytes = vec![
        1, 0, 0, 1, //
        0, 1, 0, 1, 0x77, //
        0, 2, 0, 50, 1, 2, 3,
    ];
    let parsed = Repr::parse(&Packet::new_unchecked(bytes)).unwrap();
    assert_eq!(parsed.client_id, Some(vec![0x77]));
    assert!(parsed.server_id.is_none());
}

#[test]
fn parse_short_ia_na_fails() {
    // IA_NA option with fewer than the 12 fixed bytes.
    let bytes = vec![
        7, 0, 0, 1, //
        0, 3, 0, 4, 1, 2, 3, 4,
    ];
    assert!(Repr::parse(&Packet::new_unchecked(bytes)).is_err());
}

#[test]
fn parse_short_status_code_fails() {
    // IA_NA whose nested status-code option has fewer than 2 bytes.
    let bytes = vec![
        7, 0, 0, 1, //
        0, 3, 0, 17, 0, 0, 0, 1, 0, 0, 0, 0, 0, 0, 0, 0, /* nested: */ 0, 13, 0, 1, 0,
    ];
    assert!(Repr::parse(&Packet::new_unchecked(bytes)).is_err());
}

#[test]
fn parse_last_occurrence_wins() {
    let bytes = vec![
        1, 0, 0, 1, //
        0, 1, 0, 1, 0xAA, //
        0, 1, 0, 1, 0xBB,
    ];
    let parsed = Repr::parse(&Packet::new_unchecked(bytes)).unwrap();
    assert_eq!(parsed.client_id, Some(vec![0xBB]));
}

#[test]
fn parse_dns_ignores_trailing_fragment_and_caps_at_sixteen() {
    // 17 addresses and a 5-byte fragment: 16 kept, fragment ignored.
    let mut data = Vec::new();
    for i in 0..17u8 {
        let mut a = [0u8; 16];
        a[0] = 0x20;
        a[15] = i;
        data.extend_from_slice(&a);
    }
    data.extend_from_slice(&[9, 9, 9, 9, 9]);
    let mut bytes = vec![2, 0, 0, 1, 0, 23];
    bytes.extend_from_slice(&(data.len() as u16).to_be_bytes());
    bytes.extend_from_slice(&data);
    let parsed = Repr::parse(&Packet::new_unchecked(bytes)).unwrap();
    let dns = parsed.dns_servers.unwrap();
    assert_eq!(dns.addresses.len(), 16);
    assert_eq!(dns.addresses[15].octets[15], 15);
}

#[test]
fn parse_request_options_two_byte_stride() {
    // ORO data of five bytes: two codes and a trailing odd byte.
    let bytes = vec![
        1, 0, 0, 1, //
        0, 6, 0, 5, 0, 23, 0, 24, 99,
    ];
    let parsed = Repr::parse(&Packet::new_unchecked(bytes)).unwrap();
    assert_eq!(parsed.request_options, Some(vec![23, 24]));
}

#[test]
fn add_request_option_creates_and_caps() {
    let mut r = Repr {
        message_type: MessageType::Solicit,
        transaction_id: 0,
        client_id: None,
        server_id: None,
        elapsed_time: None,
        request_options: None,
        ia_na: None,
        ia_ta: None,
        dns_servers: None,
        additional_options: Vec::new(),
    };
    for i in 0..20u16 {
        r.add_request_option(i);
    }
    let opts = r.request_options.unwrap();
    assert_eq!(opts.len(), 16);
    assert_eq!(opts[0], 0);
    assert_eq!(opts[15], 15);
}

#[test]
fn additional_options_emitted_verbatim_and_reparsed_as_unknown() {
    let r = Repr {
        message_type: MessageType::Solicit,
        transaction_id: 5,
        client_id: None,
        server_id: None,
        elapsed_time: None,
        request_options: None,
        ia_na: None,
        ia_ta: None,
        dns_servers: None,
        additional_options: vec![Dhcpv6Option { kind: 0x77, data: vec![1, 2, 3] }],
    };
    let bytes = emit_bytes(&r);
    assert_eq!(&bytes[4..], &[0, 0x77, 0, 3, 1, 2, 3]);
    let parsed = Repr::parse(&Packet::new_unchecked(bytes)).unwrap();
    // Opaque options are not re-read.
    assert!(parsed.additional_options.is_empty());
}

#[test]
fn packet_transaction_id_accessors() {
    let mut p = Packet::new_unchecked(vec![0u8; 4]);
    p.set_message_type(MessageType::Request);
    p.set_transaction_id(0xFF123456);
    assert_eq!(p.transaction_id(), 0x123456);
    assert_eq!(p.message_type(), MessageType::Request);
}

#[test]
fn message_type_and_status_code_wire_values() {
    assert_eq!(MessageType::Solicit.to_u8(), 1);
    assert_eq!(MessageType::Decline.to_u8(), 9);
    assert_eq!(MessageType::from_u8(4), MessageType::Confirm);
    assert_eq!(MessageType::from_u8(200), MessageType::Unknown(200));
    assert_eq!(StatusCode::from_u16(2), StatusCode::NoAddrsAvail);
    assert_eq!(StatusCode::NoPrefixAvail.to_u16(), 6);
    assert_eq!(StatusCode::from_u16(700), StatusCode::Unknown(700));
}

#[test]
fn ia_na_data_len_matches_wire() {
    let r = sample_repr();
    let ia = r.ia_na.as_ref().unwrap();
    // iaid + t1 + t2, one address option (4 + 24), one status option
    // (4 + 2 + message).
    assert_eq!(ia.data_len(), 12 + 28 + 4 + 2 + 8);
}

#[test]
fn nested_parsers_on_raw_data() {
    // An address entry: 16 address bytes, two lifetimes, trailing bytes
    // ignored.
    let mut data = Vec::new();
    data.extend_from_slice(&addr(0x33).octets);
    data.extend_from_slice(&100u32.to_be_bytes());
    data.extend_from_slice(&200u32.to_be_bytes());
    data.extend_from_slice(&[0, 0, 0, 0]);
    let a = ReprIaAddr::parse(&data).unwrap();
    assert_eq!(a.addr.octets, addr(0x33).octets);
    assert_eq!(a.preferred_lifetime, 100);
    assert_eq!(a.valid_lifetime, 200);
    assert!(ReprIaAddr::parse(&data[..23]).is_err());

    let sc = ReprStatusCode::parse(&[0, 4, b'n', b'o']).unwrap();
    assert_eq!(sc.status_code, StatusCode::NotOnLink);
    assert_eq!(sc.status_message, b"no".to_vec());
    assert!(ReprStatusCode::parse(&[0]).is_err());

    assert!(ReprIaNa::parse(&[0; 11]).is_err());
    let ia = ReprIaNa::parse(&[0; 12]).unwrap();
    assert_eq!(ia.iaid, 0);
    assert!(ia.addresses.is_empty());

    assert!(ReprIaTa::parse(&[0; 3]).is_err());
    let ta = ReprIaTa::parse(&[0, 0, 0, 9]).unwrap();
    assert_eq!(ta.iaid, 9);

    let dns = ReprDnsServers::parse(&addr(1).octets).unwrap();
    assert_eq!(dns.addresses.len(), 1);
}

#[test]
fn nested_emit_through_writer() {
    let entry = ReprIaAddr {
        addr: addr(0x44),
        preferred_lifetime: 7,
        valid_lifetime: 8,
        additional_options: Vec::new(),
    };
    let mut w = Dhcpv6OptionWriter::new(vec![0u8; 28]);
    entry.emit(&mut w).unwrap();
    let bytes = w.into_inner();
    // Option code 25, length 24, then the entry's data area.
    assert_eq!(&bytes[..4], &[0, 25, 0, 24]);
    assert_eq!(&bytes[4..20], &addr(0x44).octets);
    // A writer with no room refuses and stays untouched.
    let mut tight = Dhcpv6OptionWriter::new(vec![0u8; 27]);
    assert!(entry.emit(&mut tight).is_err());
    assert_eq!(tight.into_inner(), vec![0u8; 27]);
}

#[test]
fn packet_options_walker_and_writer() {
    let mut p = Packet::new_unchecked(vec![0u8; 14]);
    p.set_message_type(MessageType::Solicit);
    p.set_transaction_id(3);
    let mut w = p.options_mut();
    w.emit(&Dhcpv6Option { kind: 1, data: vec![0xAB] })
        .unwrap();
    w.emit(&Dhcpv6Option { kind: 9, data: vec![] }).unwrap();
    let p = Packet::new_unchecked(w.into_inner());
    let opts = p.options();
    assert_eq!(opts.len(), 2);
    assert_eq!(opts[0].kind, 1);
    assert_eq!(opts[0].data, vec![0xAB]);
    assert_eq!(opts[1].kind, 9);
    assert!(opts[1].data.is_empty());
    assert!(p.check_len().is_ok());
    assert_eq!(p.transaction_id(), 3);
}
