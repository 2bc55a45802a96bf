//! The tunnel's messages and their wire encoding.
//!
//! A message is encoded as a 32-bit little-endian variant tag (`0` request,
//! `1` response, `2` data) followed by its fields in order: the id as one byte,
//! the token as 64 bits little-endian, then the variable-length field preceded
//! by its length in bytes as 64 bits little-endian. A string field is carried
//! as its UTF-8 bytes. A datagram holds exactly one encoded message.
use vstd::prelude::*;
use vstd::utf8::{
    decode_utf8, decode_utf8_encode_utf8, encode_utf8, encode_utf8_decode_utf8,
    encode_utf8_valid_utf8, valid_utf8,
};

verus! {

/// The client id: the last octet of the client's address on the tunnel subnet.
pub type Id = u8;

/// The session token that the server binds to an id.
pub type Token = u64;

/// A message of the tunnel protocol.
pub enum Message {
    /// A client asks for an id and a token.
    Request,
    /// The server assigns `id` and `token`, and names the resolver to use.
    Response { id: Id, token: Token, dns: String },
    /// A compressed inner IP packet of the session `(id, token)`.
    Data { id: Id, token: Token, data: Vec<u8> },
}

/// The mathematical value of a `Message`.
pub enum MessageView {
    Request,
    Response { id: Id, token: Token, dns: Seq<char> },
    Data { id: Id, token: Token, data: Seq<u8> },
}

impl View for Message {
    type V = MessageView;

    open spec fn view(&self) -> MessageView {
        match self {
            Message::Request => MessageView::Request,
            Message::Response { id, token, dns } => MessageView::Response {
                id: *id,
                token: *token,
                dns: dns@,
            },
            Message::Data { id, token, data } => MessageView::Data {
                id: *id,
                token: *token,
                data: data@,
            },
        }
    }
}

pub const TAG_REQUEST: u32 = 0;
pub const TAG_RESPONSE: u32 = 1;
pub const TAG_DATA: u32 = 2;

/// Bytes before the variable-length field of a response or data message.
pub const FIXED_PART_LEN: usize = 21;

pub open spec fn le32_bytes(x: u32) -> Seq<u8> {
    seq![x as u8, (x >> 8) as u8, (x >> 16) as u8, (x >> 24) as u8]
}

pub open spec fn le64_bytes(x: u64) -> Seq<u8> {
    seq![
        x as u8,
        (x >> 8) as u8,
        (x >> 16) as u8,
        (x >> 24) as u8,
        (x >> 32) as u8,
        (x >> 40) as u8,
        (x >> 48) as u8,
        (x >> 56) as u8,
    ]
}

/// The 32-bit value of four little-endian bytes.
pub open spec fn le32_value(b: Seq<u8>) -> u32 {
    (b[0] as u32) | ((b[1] as u32) << 8) | ((b[2] as u32) << 16) | ((b[3] as u32) << 24)
}

/// The 64-bit value of eight little-endian bytes.
pub open spec fn le64_value(b: Seq<u8>) -> u64 {
    (b[0] as u64) | ((b[1] as u64) << 8) | ((b[2] as u64) << 16) | ((b[3] as u64) << 24) | ((
    b[4] as u64) << 32) | ((b[5] as u64) << 40) | ((b[6] as u64) << 48) | ((b[7] as u64) << 56)
}

/// The bytes that carry a string field.
pub open spec fn text_bytes(s: Seq<char>) -> Seq<u8> {
    encode_utf8(s)
}

/// Whether every variable-length field of `m` has a length that the encoding can carry.
pub open spec fn encodable(m: MessageView) -> bool {
    match m {
        MessageView::Request => true,
        MessageView::Response { dns, .. } => text_bytes(dns).len() <= u64::MAX,
        MessageView::Data { data, .. } => data.len() <= u64::MAX,
    }
}

/// The encoding of a message.
pub open spec fn encode_message(m: MessageView) -> Seq<u8> {
    match m {
        MessageView::Request => le32_bytes(TAG_REQUEST),
        MessageView::Response { id, token, dns } => le32_bytes(TAG_RESPONSE) + seq![id]
            + le64_bytes(token) + le64_bytes(text_bytes(dns).len() as u64) + text_bytes(dns),
        MessageView::Data { id, token, data } => le32_bytes(TAG_DATA) + seq![id] + le64_bytes(
            token,
        ) + le64_bytes(data.len() as u64) + data,
    }
}

/// The message that the bytes `b` hold, if they hold one and nothing more.
pub open spec fn parse_message(b: Seq<u8>) -> Option<MessageView> {
    if b.len() < 4 {
        None
    } else {
        let tag = le32_value(b.subrange(0, 4));
        if tag == TAG_REQUEST {
            if b.len() == 4 {
                Some(MessageView::Request)
            } else {
                None
            }
        } else if (tag == TAG_RESPONSE || tag == TAG_DATA) && b.len() >= FIXED_PART_LEN {
            let id = b[4];
            let token = le64_value(b.subrange(5, 13));
            let n = le64_value(b.subrange(13, 21));
            let body = b.subrange(FIXED_PART_LEN as int, b.len() as int);
            if n != body.len() {
                None
            } else if tag == TAG_DATA {
                Some(MessageView::Data { id, token, data: body })
            } else if valid_utf8(body) {
                Some(MessageView::Response { id, token, dns: decode_utf8(body) })
            } else {
                None
            }
        } else {
            None
        }
    }
}

proof fn lemma_le32_round_trip(x: u32)
    ensures
        le32_value(le32_bytes(x)) == x,
{
    let b = le32_bytes(x);
    assert(((x as u8) as u32) | ((((x >> 8) as u8) as u32) << 8) | ((((x >> 16) as u8) as u32)
        << 16) | ((((x >> 24) as u8) as u32) << 24) == x) by (bit_vector);
}

proof fn lemma_le64_round_trip(x: u64)
    ensures
        le64_value(le64_bytes(x)) == x,
{
    assert(((x as u8) as u64) | ((((x >> 8) as u8) as u64) << 8) | ((((x >> 16) as u8) as u64)
        << 16) | ((((x >> 24) as u8) as u64) << 24) | ((((x >> 32) as u8) as u64) << 32) | ((((x
        >> 40) as u8) as u64) << 40) | ((((x >> 48) as u8) as u64) << 48) | ((((x >> 56) as u8)
        as u64) << 56) == x) by (bit_vector);
}

/// Decoding an encoded message gives the message back.
pub proof fn lemma_decode_encode(m: MessageView)
    requires
        encodable(m),
    ensures
        parse_message(encode_message(m)) == Some(m),
{
    let b = encode_message(m);
    lemma_le32_round_trip(TAG_REQUEST);
    lemma_le32_round_trip(TAG_RESPONSE);
    lemma_le32_round_trip(TAG_DATA);
    match m {
        MessageView::Request => {
            assert(b.subrange(0, 4) =~= le32_bytes(TAG_REQUEST));
        },
        MessageView::Response { id, token, dns } => {
            let body = text_bytes(dns);
            lemma_le64_round_trip(token);
            lemma_le64_round_trip(body.len() as u64);
            assert(b.subrange(0, 4) =~= le32_bytes(TAG_RESPONSE));
            assert(b.subrange(5, 13) =~= le64_bytes(token));
            assert(b.subrange(13, 21) =~= le64_bytes(body.len() as u64));
            assert(b.subrange(21, b.len() as int) =~= body);
            encode_utf8_valid_utf8(dns);
            encode_utf8_decode_utf8(dns);
        },
        MessageView::Data { id, token, data } => {
            lemma_le64_round_trip(token);
            lemma_le64_round_trip(data.len() as u64);
            assert(b.subrange(0, 4) =~= le32_bytes(TAG_DATA));
            assert(b.subrange(5, 13) =~= le64_bytes(token));
            assert(b.subrange(13, 21) =~= le64_bytes(data.len() as u64));
            assert(b.subrange(21, b.len() as int) =~= data);
        },
    }
}

proof fn lemma_le32_bytes_of_value(b: Seq<u8>)
    requires
        b.len() == 4,
    ensures
        le32_bytes(le32_value(b)) == b,
{
    let (b0, b1, b2, b3) = (b[0], b[1], b[2], b[3]);
    let x = le32_value(b);
    assert(x as u8 == b0 && (x >> 8) as u8 == b1 && (x >> 16) as u8 == b2 && (x >> 24) as u8
        == b3) by (bit_vector)
        requires
            x == (b0 as u32) | ((b1 as u32) << 8) | ((b2 as u32) << 16) | ((b3 as u32) << 24),
    ;
    assert(le32_bytes(x) =~= b);
}

proof fn lemma_le64_bytes_of_value(b: Seq<u8>)
    requires
        b.len() == 8,
    ensures
        le64_bytes(le64_value(b)) == b,
{
    let (b0, b1, b2, b3, b4, b5, b6, b7) = (b[0], b[1], b[2], b[3], b[4], b[5], b[6], b[7]);
    let x = le64_value(b);
    assert(x as u8 == b0 && (x >> 8) as u8 == b1 && (x >> 16) as u8 == b2 && (x >> 24) as u8
        == b3 && (x >> 32) as u8 == b4 && (x >> 40) as u8 == b5 && (x >> 48) as u8 == b6 && (x
        >> 56) as u8 == b7) by (bit_vector)
        requires
            x == (b0 as u64) | ((b1 as u64) << 8) | ((b2 as u64) << 16) | ((b3 as u64) << 24) | ((
            b4 as u64) << 32) | ((b5 as u64) << 40) | ((b6 as u64) << 48) | ((b7 as u64) << 56),
    ;
    assert(le64_bytes(x) =~= b);
}

/// Bytes that decode to a message are that message's encoding: no two byte
/// strings decode to the same message.
pub proof fn lemma_encode_decode(b: Seq<u8>, m: MessageView)
    requires
        parse_message(b) == Some(m),
    ensures
        encodable(m),
        encode_message(m) == b,
{
    lemma_le32_bytes_of_value(b.subrange(0, 4));
    lemma_le32_round_trip(TAG_REQUEST);
    lemma_le32_round_trip(TAG_RESPONSE);
    lemma_le32_round_trip(TAG_DATA);
    let tag = le32_value(b.subrange(0, 4));
    if tag == TAG_REQUEST {
        assert(encode_message(m) =~= b);
    } else {
        lemma_le64_bytes_of_value(b.subrange(5, 13));
        lemma_le64_bytes_of_value(b.subrange(13, 21));
        let body = b.subrange(FIXED_PART_LEN as int, b.len() as int);
        assert(b =~= b.subrange(0, 4) + seq![b[4]] + b.subrange(5, 13) + b.subrange(13, 21)
            + body);
        if tag == TAG_RESPONSE {
            decode_utf8_encode_utf8(body);
        }
        assert(encode_message(m) =~= b);
    }
}

fn push_le32(v: &mut Vec<u8>, x: u32)
    ensures
        final(v)@ == old(v)@ + le32_bytes(x),
{
    v.push(x as u8);
    v.push((x >> 8) as u8);
    v.push((x >> 16) as u8);
    v.push((x >> 24) as u8);
    assert(final(v)@ =~= old(v)@ + le32_bytes(x));
}

fn push_le64(v: &mut Vec<u8>, x: u64)
    ensures
        final(v)@ == old(v)@ + le64_bytes(x),
{
    v.push(x as u8);
    v.push((x >> 8) as u8);
    v.push((x >> 16) as u8);
    v.push((x >> 24) as u8);
    v.push((x >> 32) as u8);
    v.push((x >> 40) as u8);
    v.push((x >> 48) as u8);
    v.push((x >> 56) as u8);
    assert(final(v)@ =~= old(v)@ + le64_bytes(x));
}

fn push_bytes(v: &mut Vec<u8>, b: &[u8])
    ensures
        final(v)@ == old(v)@ + b@,
{
    let ghost start = v@;
    let mut i: usize = 0;
    while i < b.len()
        invariant
            i <= b@.len(),
            v@ == start + b@.subrange(0, i as int),
        decreases b@.len() - i,
    {
        v.push(b[i]);
        i = i + 1;
        assert(v@ =~= start + b@.subrange(0, i as int));
    }
    assert(b@.subrange(0, i as int) =~= b@);
}

fn read_le32(b: &[u8], at: usize) -> (r: u32)
    requires
        at + 4 <= b@.len(),
    ensures
        r == le32_value(b@.subrange(at as int, at + 4)),
{
    (b[at] as u32) | ((b[at + 1] as u32) << 8) | ((b[at + 2] as u32) << 16) | ((b[at + 3] as u32)
        << 24)
}

fn read_le64(b: &[u8], at: usize) -> (r: u64)
    requires
        at + 8 <= b@.len(),
    ensures
        r == le64_value(b@.subrange(at as int, at + 8)),
{
    (b[at] as u64) | ((b[at + 1] as u64) << 8) | ((b[at + 2] as u64) << 16) | ((b[at + 3] as u64)
        << 24) | ((b[at + 4] as u64) << 32) | ((b[at + 5] as u64) << 40) | ((b[at + 6] as u64)
        << 48) | ((b[at + 7] as u64) << 56)
}

fn copy_from(b: &[u8], from: usize) -> (r: Vec<u8>)
    requires
        from <= b@.len(),
    ensures
        r@ == b@.subrange(from as int, b@.len() as int),
{
    let mut v: Vec<u8> = Vec::new();
    let mut i: usize = from;
    while i < b.len()
        invariant
            from <= i <= b@.len(),
            v@ == b@.subrange(from as int, i as int),
        decreases b@.len() - i,
    {
        v.push(b[i]);
        i = i + 1;
        assert(v@ =~= b@.subrange(from as int, i as int));
    }
    v
}

/// Relies on `String::from_utf8`: it succeeds exactly on valid UTF-8 and then
/// holds the characters that the bytes encode.
#[verifier::external_body]
fn string_from_utf8(b: Vec<u8>) -> (r: Option<String>)
    ensures
        r is Some <==> valid_utf8(b@),
        r matches Some(s) ==> s@ == decode_utf8(b@),
{
    String::from_utf8(b).ok()
}

impl Message {
    /// The message's wire encoding.
    pub fn encode(&self) -> (r: Vec<u8>)
        ensures
            r@ == encode_message(self@),
    {
        let mut v: Vec<u8> = Vec::new();
        match self {
            Message::Request => {
                push_le32(&mut v, TAG_REQUEST);
            },
            Message::Response { id, token, dns } => {
                let bytes = dns.as_str().as_bytes();
                push_le32(&mut v, TAG_RESPONSE);
                v.push(*id);
                push_le64(&mut v, *token);
                push_le64(&mut v, bytes.len() as u64);
                push_bytes(&mut v, bytes);
                assert(v@ =~= encode_message(self@));
            },
            Message::Data { id, token, data } => {
                push_le32(&mut v, TAG_DATA);
                v.push(*id);
                push_le64(&mut v, *token);
                push_le64(&mut v, data.len() as u64);
                push_bytes(&mut v, data.as_slice());
                assert(v@ =~= encode_message(self@));
            },
        }
        v
    }

    /// The message that `b` holds; `None` where `b` is not exactly one encoded message.
    pub fn decode(b: &[u8]) -> (r: Option<Message>)
        ensures
            match r {
                Some(m) => parse_message(b@) == Some(m@),
                None => parse_message(b@) is None,
            },
    {
        if b.len() < 4 {
            return None;
        }
        let tag = read_le32(b, 0);
        if tag == TAG_REQUEST {
            if b.len() == 4 {
                Some(Message::Request)
            } else {
                None
            }
        } else if (tag == TAG_RESPONSE || tag == TAG_DATA) && b.len() >= FIXED_PART_LEN {
            let id = b[4];
            let token = read_le64(b, 5);
            let n = read_le64(b, 13);
            if n != (b.len() - FIXED_PART_LEN) as u64 {
                return None;
            }
            let body = copy_from(b, FIXED_PART_LEN);
            if tag == TAG_DATA {
                Some(Message::Data { id, token, data: body })
            } else {
                match string_from_utf8(body) {
                    Some(dns) => Some(Message::Response { id, token, dns }),
                    None => None,
                }
            }
        } else {
            None
        }
    }
}

} // verus!
