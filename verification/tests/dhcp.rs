use heisspunk::dhcp::{ip_range, mac_key, DhcpAction, DhcpServer, CLIENT_PORT, SERVER_PORT};
use heisspunk::net::{Ipv4Addr, Received};
use heisspunk::wire::{
    base_reply, build_nak, build_reply, check_packet, fmt_mac, message_summary, msg_type_name,
    parse_options, type_of_options, PacketFault, DHCPACK, DHCPDISCOVER, DHCPNAK, DHCPOFFER,
    DHCPRELEASE, DHCPREQUEST,
};

const SECOND: u128 = 1_000_000_000;
const ANN: [u8; 6] = [2, 0, 0, 0, 0, 1];
const BOB: [u8; 6] = [2, 0, 0, 0, 0, 2];
const CAT: [u8; 6] = [2, 0, 0, 0, 0, 3];

fn addr(d: u8) -> Ipv4Addr {
    Ipv4Addr::new(192, 168, 100, d)
}

/// A server with the addresses .10 and .11, and leases of a minute.
fn server() -> DhcpServer {
    DhcpServer::new(addr(1), addr(10), addr(11), Ipv4Addr::new(255, 255, 255, 0), 60)
}

fn message(mac: [u8; 6], ciaddr: [u8; 4], options: &[u8]) -> Vec<u8> {
    let mut p = vec![0u8; 240];
    p[0] = 1;
    p[4..8].copy_from_slice(&[0xde, 0xad, 0xbe, 0xef]);
    p[12..16].copy_from_slice(&ciaddr);
    p[28..34].copy_from_slice(&mac);
    p[236..240].copy_from_slice(&[99, 130, 83, 99]);
    p.extend_from_slice(options);
    p
}

fn discover(mac: [u8; 6]) -> Vec<u8> {
    message(mac, [0; 4], &[53, 1, DHCPDISCOVER, 255])
}

fn request(mac: [u8; 6], wanted: Ipv4Addr) -> Vec<u8> {
    let o = [53, 1, DHCPREQUEST, 50, 4, wanted.a, wanted.b, wanted.c, wanted.d, 255];
    message(mac, [0; 4], &o)
}

fn release(mac: [u8; 6]) -> Vec<u8> {
    message(mac, [0; 4], &[53, 1, DHCPRELEASE, 255])
}

fn kind(reply: &[u8]) -> u8 {
    parse_options(&reply[240..])[&53][0]
}

fn given(reply: &[u8]) -> Ipv4Addr {
    Ipv4Addr::new(reply[16], reply[17], reply[18], reply[19])
}

#[test]
fn offer_and_acknowledgement_byte_for_byte() {
    let mut s = server();
    let offer = s.handle_packet(&discover(ANN), 0).unwrap();
    let mut want = vec![0u8; 240];
    want[0] = 2;
    want[1] = 1;
    want[2] = 6;
    want[4..8].copy_from_slice(&[0xde, 0xad, 0xbe, 0xef]);
    want[16..20].copy_from_slice(&[192, 168, 100, 10]);
    want[20..24].copy_from_slice(&[192, 168, 100, 1]);
    want[28..34].copy_from_slice(&ANN);
    want[236..240].copy_from_slice(&[99, 130, 83, 99]);
    want.extend_from_slice(&[53, 1, 2, 54, 4, 192, 168, 100, 1, 51, 4, 0, 0, 0, 60]);
    want.extend_from_slice(&[58, 4, 0, 0, 0, 60, 1, 4, 255, 255, 255, 0]);
    want.extend_from_slice(&[3, 4, 192, 168, 100, 1, 6, 4, 192, 168, 100, 1, 255]);
    assert_eq!(offer, want);
    assert_eq!(offer.len(), 280);

    let ack = s.handle_packet(&request(ANN, addr(10)), SECOND).unwrap();
    want[242] = DHCPACK;
    assert_eq!(ack, want);
}

#[test]
fn offer_is_honoured_whatever_others_send() {
    let mut s = server();
    let offered = given(&s.handle_packet(&discover(ANN), 0).unwrap());
    assert_eq!(offered, addr(10));
    let other = s.handle_packet(&request(BOB, offered), SECOND).unwrap();
    assert_eq!(kind(&other), DHCPACK);
    assert_eq!(given(&other), addr(11));
    let ack = s.handle_packet(&request(ANN, offered), 2 * SECOND).unwrap();
    assert_eq!((kind(&ack), given(&ack)), (DHCPACK, offered));
}

#[test]
fn free_address_is_given_as_asked_for() {
    let mut s = server();
    let ack = s.handle_packet(&request(ANN, addr(11)), 0).unwrap();
    assert_eq!((kind(&ack), given(&ack)), (DHCPACK, addr(11)));
}

#[test]
fn address_outside_the_pool_is_replaced() {
    let mut s = server();
    let ack = s.handle_packet(&request(ANN, addr(200)), 0).unwrap();
    assert_eq!((kind(&ack), given(&ack)), (DHCPACK, addr(10)));
}

#[test]
fn other_address_than_the_leased_is_refused() {
    let mut s = server();
    s.handle_packet(&discover(ANN), 0);
    let nak = s.handle_packet(&request(ANN, addr(11)), SECOND).unwrap();
    assert_eq!(nak.len(), 250);
    assert_eq!(kind(&nak), DHCPNAK);
    assert!(given(&nak).is_unspecified());
    assert_eq!(&nak[240..], &[53, 1, 6, 54, 4, 192, 168, 100, 1, 255]);
    // The lease is as it was.
    let ack = s.handle_packet(&request(ANN, addr(10)), 2 * SECOND).unwrap();
    assert_eq!((kind(&ack), given(&ack)), (DHCPACK, addr(10)));
}

#[test]
fn full_pool_offers_nothing_and_refuses() {
    let mut s = server();
    s.handle_packet(&discover(ANN), 0);
    s.handle_packet(&discover(BOB), 0);
    assert!(s.handle_packet(&discover(CAT), SECOND).is_none());
    let nak = s.handle_packet(&request(CAT, addr(10)), SECOND).unwrap();
    assert_eq!(kind(&nak), DHCPNAK);
}

#[test]
fn empty_pool_offers_nothing() {
    let mut s = DhcpServer::new(addr(1), addr(11), addr(10), addr(0), 60);
    assert!(s.handle_packet(&discover(ANN), 0).is_none());
}

#[test]
fn lease_expires_at_its_end() {
    let mut s = server();
    s.handle_packet(&discover(ANN), 0);
    s.handle_packet(&discover(BOB), 0);
    assert!(s.handle_packet(&discover(CAT), 60 * SECOND - 1).is_none());
    let offer = s.handle_packet(&discover(CAT), 60 * SECOND).unwrap();
    assert_eq!(given(&offer), addr(10));
}

#[test]
fn renewal_starts_the_lease_anew() {
    let mut s = server();
    s.handle_packet(&discover(ANN), 0);
    s.handle_packet(&request(ANN, addr(10)), 50 * SECOND);
    s.handle_packet(&discover(BOB), 50 * SECOND);
    assert!(s.handle_packet(&discover(CAT), 100 * SECOND).is_none());
    assert!(s.handle_packet(&discover(CAT), 110 * SECOND).is_some());
}

#[test]
fn release_frees_the_address() {
    let mut s = server();
    s.handle_packet(&discover(ANN), 0);
    s.handle_packet(&discover(BOB), 0);
    assert!(s.handle_packet(&release(ANN), SECOND).is_none());
    let offer = s.handle_packet(&discover(CAT), SECOND).unwrap();
    assert_eq!(given(&offer), addr(10));
    // Releasing without a lease changes nothing.
    assert!(s.handle_packet(&release(ANN), SECOND).is_none());
}

#[test]
fn clients_hold_different_addresses() {
    let mut s = DhcpServer::new(addr(1), addr(10), addr(250), addr(0), 3600);
    let mut seen = Vec::new();
    for n in 0..241u8 {
        let offer = s.handle_packet(&discover([2, 0, 0, 0, 1, n]), 0).unwrap();
        assert!(!seen.contains(&given(&offer)));
        seen.push(given(&offer));
    }
    assert_eq!(seen.len(), 241);
    assert!(s.handle_packet(&discover([2, 0, 0, 0, 2, 0]), 0).is_none());
}

#[test]
fn expired_lease_comes_back_even_if_given_away() {
    let mut s = DhcpServer::new(addr(1), addr(10), addr(10), addr(0), 60);
    s.handle_packet(&discover(ANN), 0);
    let offer = s.handle_packet(&discover(BOB), 61 * SECOND).unwrap();
    assert_eq!(given(&offer), addr(10));
    let again = s.handle_packet(&discover(ANN), 62 * SECOND).unwrap();
    assert_eq!(given(&again), addr(10));
}

#[test]
fn own_address_counts_as_request_without_the_option() {
    let mut s = server();
    let p = message(ANN, [192, 168, 100, 11], &[53, 1, DHCPREQUEST, 255]);
    assert_eq!(given(&s.handle_packet(&p, 0).unwrap()), addr(11));
    let q = message(BOB, [0; 4], &[53, 1, DHCPREQUEST, 255]);
    assert_eq!(given(&s.handle_packet(&q, 0).unwrap()), addr(10));
}

#[test]
fn short_requested_address_is_ignored() {
    let mut s = server();
    let p = message(ANN, [192, 168, 100, 11], &[53, 1, DHCPREQUEST, 50, 3, 192, 168, 100, 255]);
    assert_eq!(given(&s.handle_packet(&p, 0).unwrap()), addr(11));
    let mut s = server();
    let q = message(ANN, [0; 4], &[53, 1, DHCPREQUEST, 50, 5, 192, 168, 100, 11, 9, 255]);
    assert_eq!(given(&s.handle_packet(&q, 0).unwrap()), addr(11));
}

#[test]
fn messages_that_are_none_are_ignored() {
    let mut s = server();
    let good = discover(ANN);
    assert!(s.handle_packet(&[], 0).is_none());
    assert!(s.handle_packet(&good[..239], 0).is_none());
    assert!(s.handle_packet(&good[..240], 0).is_none());
    let mut reply = good.clone();
    reply[0] = 2;
    assert!(s.handle_packet(&reply, 0).is_none());
    for i in 236..240 {
        let mut bad = good.clone();
        bad[i] += 1;
        assert!(s.handle_packet(&bad, 0).is_none());
    }
    assert!(s.handle_packet(&message(ANN, [0; 4], &[53, 0, 255]), 0).is_none());
    assert!(s.handle_packet(&message(ANN, [0; 4], &[53, 1, 8, 255]), 0).is_none());
    assert!(s.handle_packet(&good, 0).is_some());
}

#[test]
fn requests_with_a_given_result() {
    let mut s = server();
    assert_eq!(s.assign_or_get(&ANN, 0), Some(addr(10)));
    assert_eq!(s.assign_or_get(&ANN, 1), Some(addr(10)));
    assert_eq!(s.validate_request(&ANN, None, 2), Some(addr(10)));
    assert_eq!(s.validate_request(&ANN, Some(addr(10)), 3), Some(addr(10)));
    assert_eq!(s.validate_request(&ANN, Some(addr(11)), 4), None);
    assert_eq!(s.validate_request(&BOB, Some(addr(10)), 5), Some(addr(11)));
    assert_eq!(s.validate_request(&CAT, None, 6), None);
}

#[test]
fn serving_goes_to_all_hosts() {
    let mut s = server();
    match s.serve(Received::Packet(&discover(ANN)), 0) {
        DhcpAction::Send { packet, to, to_port } => {
            assert_eq!(kind(&packet), DHCPOFFER);
            assert_eq!(to, Ipv4Addr::new(255, 255, 255, 255));
            assert_eq!(to_port, CLIENT_PORT);
        }
        _ => panic!("no answer"),
    }
    assert_eq!((SERVER_PORT, CLIENT_PORT), (67, 68));
    assert!(matches!(s.serve(Received::Packet(&[]), 0), DhcpAction::Wait));
    assert!(matches!(s.serve(Received::TimedOut, 0), DhcpAction::Wait));
    assert!(matches!(s.serve(Received::Failed, 0), DhcpAction::Warn));
}

#[test]
fn packets_that_are_not_looked_at() {
    let good = discover(ANN);
    assert_eq!(check_packet(&good), Ok(()));
    assert_eq!(check_packet(&good[..240]), Ok(()));
    assert_eq!(check_packet(&good[..239]), Err(PacketFault::TooShort));
    let mut bad = good.clone();
    bad[238] = 0;
    assert_eq!(check_packet(&bad), Err(PacketFault::NoCookie));
    bad[0] = 2;
    assert_eq!(check_packet(&bad), Err(PacketFault::NotFromClient));
}

#[test]
fn messages_in_short() {
    assert_eq!(message_summary(&discover(ANN)), Some((ANN, DHCPDISCOVER)));
    let nak = build_nak(addr(1), &[0; 4], &BOB);
    assert_eq!(message_summary(&nak), Some((BOB, DHCPNAK)));
    assert_eq!(message_summary(&discover(ANN)[..239]), None);
    assert_eq!(message_summary(&message(ANN, [0; 4], &[255])), None);
    assert_eq!(message_summary(&message(ANN, [0; 4], &[53, 0, 255])), None);
    assert_eq!(type_of_options(&parse_options(&[53, 2, 7, 9])), Some(7));
    assert_eq!(type_of_options(&parse_options(&[])), None);
}

#[test]
fn options_are_read() {
    let m = parse_options(&[0, 0, 53, 1, 3, 12, 0, 50, 2, 7, 8, 53, 1, 1, 255, 1, 1, 1]);
    assert_eq!(m.len(), 3);
    assert_eq!(m[&53], vec![1]);
    assert_eq!(m[&12], Vec::<u8>::new());
    assert_eq!(m[&50], vec![7, 8]);
    assert!(parse_options(&[]).is_empty());
    assert!(parse_options(&[255, 53, 1, 1]).is_empty());
    assert!(parse_options(&[53]).is_empty());
    assert!(parse_options(&[53, 2, 1]).is_empty());
    assert_eq!(parse_options(&[53, 1, 1, 50, 4, 1]).len(), 1);
    let long: Vec<u8> = [vec![9, 255], vec![5; 255]].concat();
    assert_eq!(parse_options(&long)[&9].len(), 255);
}

#[test]
fn replies_say_what_they_were_made_from() {
    let gw = Ipv4Addr::new(10, 0, 0, 1);
    let mask = Ipv4Addr::new(255, 0, 0, 0);
    let ip = Ipv4Addr::new(10, 0, 0, 99);
    let p = build_reply(gw, mask, 0x01020304, &[1, 2, 3, 4], &ANN, ip, DHCPACK);
    let o = parse_options(&p[240..]);
    assert_eq!(o.len(), 7);
    assert_eq!(o[&53], vec![5]);
    assert_eq!(o[&54], vec![10, 0, 0, 1]);
    assert_eq!(o[&51], vec![1, 2, 3, 4]);
    assert_eq!(o[&58], vec![1, 2, 3, 4]);
    assert_eq!(o[&1], vec![255, 0, 0, 0]);
    assert_eq!(o[&3], vec![10, 0, 0, 1]);
    assert_eq!(o[&6], vec![10, 0, 0, 1]);
    assert_eq!(given(&p), ip);
    assert_eq!(&p[..240], &base_reply(gw, &[1, 2, 3, 4], &ANN, ip)[..]);
    let n = build_nak(gw, &[1, 2, 3, 4], &ANN);
    assert_eq!(parse_options(&n[240..]).len(), 2);
    assert_eq!(&n[28..34], &ANN);
}

#[test]
fn ranges_hold_both_ends() {
    assert_eq!(ip_range(addr(10), addr(12)), vec![0xc0a8640a, 0xc0a8640b, 0xc0a8640c]);
    assert_eq!(ip_range(addr(10), addr(10)).len(), 1);
    assert!(ip_range(addr(11), addr(10)).is_empty());
    let top = Ipv4Addr::new(255, 255, 255, 255);
    assert_eq!(ip_range(Ipv4Addr::new(255, 255, 255, 254), top), vec![0xfffffffe, 0xffffffff]);
}

#[test]
fn hardware_addresses_have_different_numbers() {
    assert_eq!(mac_key(&[1, 2, 3, 4, 5, 6]), 0x0102_0304_0506);
    assert_eq!(mac_key(&[255; 6]), 0xffff_ffff_ffff);
    assert_ne!(mac_key(&ANN), mac_key(&BOB));
}

#[test]
fn hardware_addresses_in_print() {
    assert_eq!(fmt_mac(&[0, 1, 0x0a, 0xff, 0x10, 0x9c]), "00:01:0a:ff:10:9c");
}

#[test]
fn message_types_have_names() {
    let names = [
        "UNKNOWN", "DISCOVER", "OFFER", "REQUEST", "DECLINE", "ACK", "NAK", "RELEASE", "INFORM",
        "UNKNOWN",
    ];
    for (i, n) in names.iter().enumerate() {
        assert_eq!(msg_type_name(i as u8), *n);
    }
    assert_eq!(msg_type_name(255), "UNKNOWN");
}
