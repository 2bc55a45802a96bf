//! The client's decisions: the handshake that yields its id and token, and
//! forwarding between its TUN device and the server.
use vstd::prelude::*;
use crate::codec::{Codec, compress, compressible_len, decompress, sealable, sealed_datagram, snappy_compress_of};
use crate::message::{Id, Message, MessageView, Token};
use crate::server::DropReason;

verus! {

/// What a handshake yields.
pub struct Handshake {
    pub id: Id,
    pub token: Token,
    pub dns: String,
}

/// Why a handshake failed.
#[derive(Clone, Copy, Debug, PartialEq, Eq, Structural)]
pub enum HandshakeError {
    /// The reply is not a sealed message under the shared key.
    Undecodable,
    /// The reply is a message other than a response.
    InvalidMessage,
}

/// The datagram that opens a handshake: a sealed request.
pub fn request_datagram(codec: &Codec) -> (r: Vec<u8>)
    requires
        codec.wf(),
    ensures
        r@ == sealed_datagram(codec.key(), MessageView::Request),
{
    let m = Message::Request;
    codec.seal(&m)
}

/// Reads the server's reply to a request: the id, token and resolver of a
/// sealed response.
pub fn accept_response(codec: &Codec, d: &[u8]) -> (r: Result<Handshake, HandshakeError>)
    requires
        codec.wf(),
    ensures
        (forall|m: MessageView| sealable(m) ==> d@ != #[trigger] sealed_datagram(codec.key(), m))
            ==> r == Err::<Handshake, HandshakeError>(HandshakeError::Undecodable),
        forall|m: MessageView|
            sealable(m) && d@ == #[trigger] sealed_datagram(codec.key(), m) ==> match m {
                MessageView::Response { id, token, dns } => r matches Ok(h) && h.id == id
                    && h.token == token && h.dns@ == dns,
                _ => r == Err::<Handshake, HandshakeError>(HandshakeError::InvalidMessage),
            },
{
    match codec.open(d) {
        None => Err(HandshakeError::Undecodable),
        Some(m) => {
            proof {
                assert forall|x: MessageView| sealable(x) && d@ == #[trigger] sealed_datagram(codec.key(), x) implies x == m@ by {}
            }
            match m {
                Message::Response { id, token, dns } => Ok(Handshake { id, token, dns }),
                _ => Err(HandshakeError::InvalidMessage),
            }
        },
    }
}

/// A client's session: its id and token, and the shared key.
pub struct Client {
    id: Id,
    token: Token,
    codec: Codec,
}

impl Client {
    pub closed spec fn id(&self) -> Id {
        self.id
    }

    /// The token that the handshake returned.
    pub closed spec fn token(&self) -> Token {
        self.token
    }

    pub closed spec fn key(&self) -> Seq<u8> {
        self.codec.key()
    }

    pub closed spec fn wf(&self) -> bool {
        self.codec.wf()
    }

    /// The session with id `id` and token `token`, as a handshake returned them.
    pub fn new(codec: Codec, id: Id, token: Token) -> (r: Client)
        requires
            codec.wf(),
        ensures
            r.wf(),
            r.id() == id,
            r.token() == token,
            r.key() == codec.key(),
    {
        Client { id, token, codec }
    }

    /// Handles a datagram from the server: the payload of a data message with
    /// this session's token, decompressed, is the packet to write to the TUN
    /// device; anything else is dropped.
    pub fn on_datagram(&self, d: &[u8]) -> (r: Result<Vec<u8>, DropReason>)
        requires
            self.wf(),
        ensures
            (forall|m: MessageView| sealable(m) ==> d@ != #[trigger] sealed_datagram(self.key(), m))
                ==> r == Err::<Vec<u8>, DropReason>(DropReason::Undecodable),
            forall|m: MessageView|
                sealable(m) && d@ == #[trigger] sealed_datagram(self.key(), m) ==> match m {
                    MessageView::Data { id, token, data } => if token != self.token() {
                        r == Err::<Vec<u8>, DropReason>(DropReason::TokenMismatch)
                    } else {
                        &&& (r is Ok || r == Err::<Vec<u8>, DropReason>(DropReason::BadPayload))
                        &&& forall|p: Seq<u8>|
                            compressible_len(p.len() as int) && data == #[trigger] snappy_compress_of(p)
                                ==> (r matches Ok(q) && q@ == p)
                    },
                    _ => r == Err::<Vec<u8>, DropReason>(DropReason::UnexpectedMessage),
                },
            r is Ok ==> exists|id: Id, data: Seq<u8>|
                #![trigger sealed_datagram(self.key(), MessageView::Data { id, token: self.token(), data })]
                sealable(MessageView::Data { id, token: self.token(), data }) && d@ == sealed_datagram(
                    self.key(),
                    MessageView::Data { id, token: self.token(), data },
                ),
    {
        match self.codec.open(d) {
            None => Err(DropReason::Undecodable),
            Some(m) => {
                proof {
                    assert forall|x: MessageView| sealable(x) && d@ == #[trigger] sealed_datagram(self.key(), x) implies x == m@ by {}
                    assert(sealable(m@) && d@ == sealed_datagram(self.key(), m@));
                }
                match m {
                    Message::Data { id, token, data } => {
                        if token != self.token {
                            Err(DropReason::TokenMismatch)
                        } else {
                            match decompress(data.as_slice()) {
                                Some(p) => {
                                    proof {
                                        assert(d@ == sealed_datagram(self.key(), MessageView::Data { id, token: self.token(), data: data@ }));
                                    }
                                    Ok(p)
                                },
                                None => Err(DropReason::BadPayload),
                            }
                        }
                    },
                    _ => Err(DropReason::UnexpectedMessage),
                }
            },
        }
    }

    /// The datagram that carries an IP packet read from the TUN device: a data
    /// message with this session's id and token and the packet compressed.
    pub fn on_tun_frame(&self, frame: &[u8]) -> (r: Vec<u8>)
        requires
            self.wf(),
            compressible_len(frame@.len() as int),
        ensures
            r@ == sealed_datagram(
                self.key(),
                MessageView::Data { id: self.id(), token: self.token(), data: snappy_compress_of(frame@) },
            ),
    {
        let data = compress(frame);
        let m = Message::Data { id: self.id, token: self.token, data };
        self.codec.seal(&m)
    }
}

} // verus!
