use udptun::client::{accept_response, request_datagram, Client, HandshakeError};
use udptun::codec::{compress, Codec};
use udptun::message::Message;
use udptun::server::{DropReason, ServeError, Server, ServerAction};
use udptun::session::PeerAddr;

fn peer(port: u16) -> PeerAddr {
    PeerAddr { ip: 0x7f000001, is_v6: false, port }
}

fn server() -> Server {
    Server::new("password", "8.8.8.8".to_string())
}

fn ip_packet(dest_id: u8) -> Vec<u8> {
    let mut p = vec![0x45u8, 0, 0, 28, 0, 0, 0, 0, 64, 17, 0, 0, 10, 10, 10, 1, 10, 10, 10, dest_id];
    p.extend_from_slice(&[0, 53, 0, 53, 0, 8, 0, 0]);
    p
}

/// Performs a handshake from `from` and returns (id, token, dns).
fn handshake(s: &mut Server, from: PeerAddr) -> (u8, u64, String) {
    let c = Codec::new("password");
    let req = request_datagram(&c);
    match s.handle_datagram(&req, from) {
        Ok(ServerAction::Send { to, datagram }) => {
            assert_eq!(to, from);
            let h = accept_response(&c, &datagram).unwrap();
            (h.id, h.token, h.dns)
        }
        _ => panic!("no response to a request"),
    }
}

fn data_datagram(id: u8, token: u64, packet: &[u8]) -> Vec<u8> {
    Codec::new("password").seal(&Message::Data { id, token, data: compress(packet) })
}

#[test]
fn handshake_assigns_expected_id() {
    let mut s = server();
    let (id, _token, dns) = handshake(&mut s, peer(40000));
    assert_eq!(id, 253);
    assert_eq!(dns, "8.8.8.8");
}

#[test]
fn second_client_is_assigned_252() {
    let mut s = server();
    assert_eq!(handshake(&mut s, peer(40000)).0, 253);
    assert_eq!(handshake(&mut s, peer(40001)).0, 252);
}

#[test]
fn accept_request_binds_given_token() {
    let mut s = server();
    match s.accept_request(peer(1), 0xdead_beef) {
        Ok(ServerAction::Send { datagram, .. }) => {
            let h = accept_response(&Codec::new("password"), &datagram).unwrap();
            assert_eq!((h.id, h.token), (253, 0xdead_beef));
        }
        _ => panic!("no response"),
    }
}

#[test]
fn token_mismatch_is_dropped() {
    let mut s = server();
    let (id, token, _) = handshake(&mut s, peer(40000));
    assert_eq!(id, 253);
    let wrong = token.wrapping_add(1);
    let d = data_datagram(253, wrong, &ip_packet(1));
    assert!(matches!(s.handle_datagram(&d, peer(40000)), Ok(ServerAction::Drop(DropReason::TokenMismatch))));
    assert!(matches!(s.on_data(253, wrong, &compress(&ip_packet(1))), ServerAction::Drop(DropReason::TokenMismatch)));
}

#[test]
fn unknown_id_is_dropped_and_nothing_changes() {
    let mut s = server();
    let d = data_datagram(99, 0, &ip_packet(1));
    assert!(matches!(s.handle_datagram(&d, peer(5)), Ok(ServerAction::Drop(DropReason::UnknownId))));
    assert_eq!(handshake(&mut s, peer(40000)).0, 253);
}

#[test]
fn matching_data_goes_to_tun() {
    let mut s = server();
    let (id, token, _) = handshake(&mut s, peer(40000));
    let pkt = ip_packet(1);
    match s.handle_datagram(&data_datagram(id, token, &pkt), peer(40000)) {
        Ok(ServerAction::WriteTun(p)) => assert_eq!(p, pkt),
        _ => panic!("packet not forwarded"),
    }
}

#[test]
fn bad_payload_is_dropped() {
    let mut s = server();
    let (id, token, _) = handshake(&mut s, peer(40000));
    let d = Codec::new("password").seal(&Message::Data { id, token, data: vec![0xff, 0xff, 0xff, 0xff, 0xff, 0xff] });
    assert!(matches!(s.handle_datagram(&d, peer(40000)), Ok(ServerAction::Drop(DropReason::BadPayload))));
}

#[test]
fn tampered_datagram_is_dropped() {
    let mut s = server();
    let (id, token, _) = handshake(&mut s, peer(40000));
    let mut d = data_datagram(id, token, &ip_packet(1));
    let last = d.len() - 1;
    d[last] ^= 0x80;
    assert!(matches!(s.handle_datagram(&d, peer(40000)), Ok(ServerAction::Drop(DropReason::Undecodable))));
    assert_eq!(handshake(&mut s, peer(40001)).0, 252);
}

#[test]
fn response_to_server_is_dropped() {
    let mut s = server();
    let d = Codec::new("password").seal(&Message::Response { id: 3, token: 3, dns: "x".to_string() });
    assert!(matches!(s.handle_datagram(&d, peer(1)), Ok(ServerAction::Drop(DropReason::UnexpectedMessage))));
}

#[test]
fn empty_pool_is_fatal() {
    let mut s = server();
    for i in 0..252u32 {
        assert!(matches!(s.accept_request(peer(i as u16), i as u64), Ok(ServerAction::Send { .. })));
    }
    assert!(matches!(s.accept_request(peer(999), 1), Err(ServeError::PoolExhausted)));
    let req = request_datagram(&Codec::new("password"));
    assert!(matches!(s.handle_datagram(&req, peer(1000)), Err(ServeError::PoolExhausted)));
}

#[test]
fn pool_hands_out_ids_from_253_down_to_2() {
    let mut s = server();
    let c = Codec::new("password");
    for expected in (2..=253u8).rev() {
        match s.accept_request(peer(expected as u16), 0) {
            Ok(ServerAction::Send { datagram, .. }) => {
                assert_eq!(accept_response(&c, &datagram).unwrap().id, expected);
            }
            _ => panic!("no response"),
        }
    }
}

#[test]
fn fresh_sessions_are_not_pruned() {
    let mut s = server();
    handshake(&mut s, peer(1));
    assert!(s.prune().is_empty());
    assert_eq!(handshake(&mut s, peer(2)).0, 252);
}

#[test]
fn tun_frame_goes_to_its_client() {
    let mut s = server();
    let (id, token, _) = handshake(&mut s, peer(40000));
    let pkt = ip_packet(id);
    match s.on_tun_frame(&pkt) {
        ServerAction::Send { to, datagram } => {
            assert_eq!(to, peer(40000));
            match Codec::new("password").open(&datagram) {
                Some(Message::Data { id: got_id, token: got_token, data }) => {
                    assert_eq!(got_id, pkt[19]);
                    assert_eq!(got_token, token);
                    assert_eq!(data, compress(&pkt));
                }
                _ => panic!("not a data message"),
            }
            let client = Client::new(Codec::new("password"), id, token);
            assert_eq!(client.on_datagram(&datagram).unwrap(), pkt);
        }
        _ => panic!("frame not forwarded"),
    }
}

#[test]
fn tun_frame_for_unknown_or_short_is_dropped() {
    let mut s = server();
    assert!(matches!(s.on_tun_frame(&ip_packet(7)), ServerAction::Drop(DropReason::UnknownId)));
    assert!(matches!(s.on_tun_frame(&[0x45; 19]), ServerAction::Drop(DropReason::ShortFrame)));
}

#[test]
fn client_sends_its_session() {
    let client = Client::new(Codec::new("password"), 253, 77);
    let pkt = ip_packet(1);
    let d = client.on_tun_frame(&pkt);
    match Codec::new("password").open(&d) {
        Some(Message::Data { id, token, data }) => {
            assert_eq!((id, token), (253, 77));
            assert_eq!(data, compress(&pkt));
        }
        _ => panic!("not a data message"),
    }
}

#[test]
fn client_drops_foreign_token_and_other_messages() {
    let client = Client::new(Codec::new("password"), 253, 77);
    let pkt = ip_packet(253);
    assert_eq!(client.on_datagram(&data_datagram(253, 78, &pkt)), Err(DropReason::TokenMismatch));
    assert_eq!(client.on_datagram(&data_datagram(253, 77, &pkt)), Ok(pkt));
    let req = request_datagram(&Codec::new("password"));
    assert_eq!(client.on_datagram(&req), Err(DropReason::UnexpectedMessage));
    assert_eq!(client.on_datagram(&[0u8; 40]), Err(DropReason::Undecodable));
}

#[test]
fn handshake_rejects_other_replies() {
    let c = Codec::new("password");
    assert!(matches!(accept_response(&c, &request_datagram(&c)), Err(HandshakeError::InvalidMessage)));
    assert!(matches!(accept_response(&c, &[1, 2, 3]), Err(HandshakeError::Undecodable)));
}
