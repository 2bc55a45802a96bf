use udptun::codec::{compress, decompress, derive_keys, Codec};
use udptun::message::Message;

fn sample_packet() -> Vec<u8> {
    let mut p = vec![0x45u8, 0, 0, 40, 0, 0, 0, 0, 64, 6, 0, 0, 10, 10, 10, 1, 10, 10, 10, 253];
    for i in 0..200u32 {
        p.push((i % 7) as u8);
    }
    p
}

#[test]
fn request_encoding() {
    assert_eq!(Message::Request.encode(), vec![0, 0, 0, 0]);
}

#[test]
fn response_encoding() {
    let m = Message::Response { id: 253, token: 0x0102030405060708, dns: "8.8.8.8".to_string() };
    let mut expected = vec![1, 0, 0, 0, 253, 8, 7, 6, 5, 4, 3, 2, 1, 7, 0, 0, 0, 0, 0, 0, 0];
    expected.extend_from_slice(b"8.8.8.8");
    assert_eq!(m.encode(), expected);
}

#[test]
fn encoding_matches_bincode() {
    let m = Message::Response { id: 253, token: 77, dns: "8.8.8.8".to_string() };
    let b = bincode::serialize(&(1u32, 253u8, 77u64, "8.8.8.8")).unwrap();
    assert_eq!(m.encode(), b);
    let d = Message::Data { id: 9, token: u64::MAX, data: vec![1, 2, 3] };
    let b = bincode::serialize(&(2u32, 9u8, u64::MAX, vec![1u8, 2, 3])).unwrap();
    assert_eq!(d.encode(), b);
}

#[test]
fn decode_round_trip() {
    let msgs = vec![
        Message::Request,
        Message::Response { id: 2, token: 5, dns: "1.1.1.1".to_string() },
        Message::Data { id: 253, token: 0, data: vec![] },
        Message::Data { id: 200, token: 99, data: sample_packet() },
    ];
    for m in msgs {
        let b = m.encode();
        let back = Message::decode(&b).unwrap();
        assert_eq!(back.encode(), b);
    }
}

#[test]
fn decode_rejects_malformed() {
    assert!(Message::decode(&[]).is_none());
    assert!(Message::decode(&[0, 0, 0]).is_none());
    assert!(Message::decode(&[0, 0, 0, 0, 0]).is_none());
    assert!(Message::decode(&[3, 0, 0, 0]).is_none());
    let mut b = Message::Data { id: 1, token: 1, data: vec![1, 2] }.encode();
    b.push(0);
    assert!(Message::decode(&b).is_none());
    b.truncate(b.len() - 2);
    assert!(Message::decode(&b).is_none());
    let mut r = Message::Response { id: 1, token: 1, dns: "a".to_string() }.encode();
    let last = r.len() - 1;
    r[last] = 0xff;
    assert!(Message::decode(&r).is_none());
}

#[test]
fn derived_key_is_deterministic() {
    let a = derive_keys("password");
    assert_eq!(a.len(), 32);
    assert_eq!(a, derive_keys("password"));
    assert_ne!(a, derive_keys("passw0rd"));
}

#[test]
fn seal_open_round_trip() {
    let c = Codec::new("password");
    let m = Message::Data { id: 253, token: 42, data: sample_packet() };
    let d = c.seal(&m);
    assert_eq!(d.len(), m.encode().len() + 16);
    assert_ne!(&d[..d.len() - 16], &m.encode()[..]);
    match c.open(&d) {
        Some(Message::Data { id, token, data }) => {
            assert_eq!((id, token), (253, 42));
            assert_eq!(data, sample_packet());
        }
        _ => panic!("datagram did not open"),
    }
}

#[test]
fn open_rejects_tampered_and_foreign() {
    let c = Codec::new("password");
    let mut d = c.seal(&Message::Request);
    assert!(Codec::new("other").open(&d).is_none());
    let last = d.len() - 1;
    d[last] ^= 1;
    assert!(c.open(&d).is_none());
    assert!(c.open(&[1, 2, 3]).is_none());
}

#[test]
fn compress_round_trip() {
    let p = sample_packet();
    let c = compress(&p);
    assert_ne!(c, p);
    assert_eq!(decompress(&c).unwrap(), p);
    assert_eq!(decompress(&compress(&[])).unwrap(), Vec::<u8>::new());
}
