//! The server's decisions: id allocation, session checks and forwarding
//! between the TUN device and the clients. The I/O loop that feeds it events
//! and carries out its actions lives outside the library.
use vstd::prelude::*;
use vstd::seq_lib::lemma_no_dup_in_concat;
use vstd::set_lib::lemma_set_disjoint_lens;
use vstd::string::StringSliceAdditionalSpecFns;
use crate::codec::{
    Codec, compress, compressible_len, decompress, derived_key, sealable, sealed_datagram,
    snappy_compress_of,
};
use crate::message::{Id, Message, MessageView, Token, text_bytes};
use crate::session::{PeerAddr, SessionTable, expired_at, live_sessions, session_lifetime, session_stamps};

verus! {

/// Seconds without use after which a session expires.
pub const SESSION_LIFETIME_SECS: u32 = 60;

/// The lowest id handed to a client.
pub const FIRST_CLIENT_ID: u8 = 2;

/// One past the highest id handed to a client.
pub const CLIENT_ID_END: u8 = 254;

/// How many ids the pool holds when no session is live.
pub const CLIENT_ID_COUNT: usize = 252;

/// Offset in an IPv4 packet of the last octet of the destination address.
pub const DEST_ID_OFFSET: usize = 19;

/// Why a datagram or a frame was dropped.
#[derive(Clone, Copy, Debug, PartialEq, Eq, Structural)]
pub enum DropReason {
    /// The datagram is not a sealed message under the shared key.
    Undecodable,
    /// The message is not one that this side accepts.
    UnexpectedMessage,
    /// No live session has the id.
    UnknownId,
    /// The token differs from the session's.
    TokenMismatch,
    /// The payload of a data message does not decompress.
    BadPayload,
    /// The frame is too short to name a destination.
    ShortFrame,
}

/// A failure that ends the server.
#[derive(Clone, Copy, Debug, PartialEq, Eq, Structural)]
pub enum ServeError {
    /// A request came while every id was in use.
    PoolExhausted,
}

/// What the server's loop is to do next.
pub enum ServerAction {
    /// Send `datagram` to the UDP endpoint `to`.
    Send { to: PeerAddr, datagram: Vec<u8> },
    /// Write the IP packet to the TUN device.
    WriteTun(Vec<u8>),
    /// Drop the input.
    Drop(DropReason),
}

pub enum ServerActionView {
    Send { to: PeerAddr, datagram: Seq<u8> },
    WriteTun(Seq<u8>),
    Drop(DropReason),
}

impl View for ServerAction {
    type V = ServerActionView;

    open spec fn view(&self) -> ServerActionView {
        match self {
            ServerAction::Send { to, datagram } => ServerActionView::Send {
                to: *to,
                datagram: datagram@,
            },
            ServerAction::WriteTun(p) => ServerActionView::WriteTun(p@),
            ServerAction::Drop(why) => ServerActionView::Drop(*why),
        }
    }
}

pub open spec fn is_client_id(id: int) -> bool {
    FIRST_CLIENT_ID <= id < CLIENT_ID_END
}

/// The pool as the server starts: every client id, ascending, so that the
/// highest is handed out first.
pub open spec fn initial_pool() -> Seq<Id> {
    Seq::new(CLIENT_ID_COUNT as nat, |i: int| (i + FIRST_CLIENT_ID) as u8)
}

/// The free ids and the live sessions split the client ids between them.
pub open spec fn pool_invariant(pool: Seq<Id>, sessions: Map<Id, (Token, PeerAddr)>) -> bool {
    &&& pool.no_duplicates()
    &&& forall|i: int|
        0 <= i < pool.len() ==> is_client_id(#[trigger] pool[i] as int) && !sessions.contains_key(
            pool[i],
        )
    &&& forall|id: Id| #[trigger] sessions.contains_key(id) ==> is_client_id(id as int)
    &&& forall|id: Id| is_client_id(id as int) ==> #[trigger] pool.contains(id) || sessions.contains_key(id)
    &&& sessions.dom().finite()
    &&& pool.len() + sessions.dom().len() == CLIENT_ID_COUNT
}

/// The server's state.
pub struct Server {
    pool: Vec<Id>,
    sessions: SessionTable,
    codec: Codec,
    dns: String,
}

/// The server's state after a request from `from`, bound to `token`: the top
/// id of the pool goes to a new session and the reply carries it, or, with an
/// empty pool, nothing changes and the server fails.
pub open spec fn request_outcome(
    pre: &Server,
    post: &Server,
    from: PeerAddr,
    token: Token,
    r: &Result<ServerAction, ServeError>,
) -> bool {
    if pre.pool().len() == 0 {
        &&& *r == Err::<ServerAction, ServeError>(ServeError::PoolExhausted)
        &&& post.pool() == pre.pool()
        &&& post.sessions() == pre.sessions()
    } else {
        let id = pre.pool().last();
        &&& post.pool() == pre.pool().drop_last()
        &&& post.sessions() == pre.sessions().insert(id, (token, from))
        &&& r matches Ok(a) && a@ == ServerActionView::Send {
            to: from,
            datagram: sealed_datagram(
                pre.key(),
                MessageView::Response { id, token, dns: pre.dns() },
            ),
        }
    }
}

/// The outcome of a data message `(id, token, data)`: dropped unless it
/// matches a live session, else its payload decompressed for the TUN device.
pub open spec fn data_outcome(pre: &Server, id: Id, token: Token, data: Seq<u8>, a: ServerActionView) -> bool {
    if !pre.sessions().contains_key(id) {
        a == ServerActionView::Drop(DropReason::UnknownId)
    } else if pre.sessions()[id].0 != token {
        a == ServerActionView::Drop(DropReason::TokenMismatch)
    } else {
        &&& (a is WriteTun || a == ServerActionView::Drop(DropReason::BadPayload))
        &&& forall|p: Seq<u8>|
            compressible_len(p.len() as int) && data == #[trigger] snappy_compress_of(p) ==> a
                == ServerActionView::WriteTun(p)
    }
}

/// The outcome of a message `m` received from `from`.
pub open spec fn message_outcome(
    pre: &Server,
    post: &Server,
    m: MessageView,
    from: PeerAddr,
    r: &Result<ServerAction, ServeError>,
) -> bool {
    match m {
        MessageView::Request => request_outcome(
            pre,
            post,
            from,
            post.sessions()[pre.pool().last()].0,
            r,
        ),
        MessageView::Response { .. } => {
            &&& post.pool() == pre.pool()
            &&& post.sessions() == pre.sessions()
            &&& r matches Ok(a) && a@ == ServerActionView::Drop(DropReason::UnexpectedMessage)
        },
        MessageView::Data { id, token, data } => {
            &&& post.pool() == pre.pool()
            &&& post.sessions() == pre.sessions()
            &&& r matches Ok(a) && data_outcome(pre, id, token, data, a@)
        },
    }
}

/// Relies on rand's thread-local generator (`rand::thread_rng`): any value may
/// come back.
#[verifier::external_body]
fn random_token() -> (r: Token) {
    rand::Rng::gen::<Token>(&mut rand::thread_rng())
}

impl Server {
    /// The free ids; the last is handed out next.
    pub closed spec fn pool(&self) -> Seq<Id> {
        self.pool@
    }

    /// The live sessions: for each id, its token and its client's address.
    pub closed spec fn sessions(&self) -> Map<Id, (Token, PeerAddr)> {
        live_sessions(self.sessions)
    }

    /// When each live session was last used, in seconds of the table's clock.
    pub closed spec fn stamps(&self) -> Map<Id, i64> {
        session_stamps(self.sessions)
    }

    /// The key that datagrams are sealed with.
    pub closed spec fn key(&self) -> Seq<u8> {
        self.codec.key()
    }

    /// The resolver that responses name.
    pub closed spec fn dns(&self) -> Seq<char> {
        self.dns@
    }

    pub closed spec fn config_ok(&self) -> bool {
        &&& self.codec.wf()
        &&& text_bytes(self.dns@).len() <= u32::MAX
        &&& session_lifetime(self.sessions) == SESSION_LIFETIME_SECS
        &&& self.stamps().dom() == self.sessions().dom()
    }

    pub open spec fn wf(&self) -> bool {
        self.config_ok() && pool_invariant(self.pool(), self.sessions())
    }

    pub open spec fn same_config(&self, other: &Server) -> bool {
        self.key() == other.key() && self.dns() == other.dns()
    }

    /// A server keyed from `secret` that names `dns` as resolver, with every
    /// client id free.
    pub fn new(secret: &str, dns: String) -> (r: Server)
        requires
            secret.spec_bytes().len() <= u32::MAX,
            text_bytes(dns@).len() <= u32::MAX,
        ensures
            r.wf(),
            r.pool() == initial_pool(),
            r.sessions().dom() == Set::<Id>::empty(),
            r.key() == derived_key(secret.spec_bytes()),
            r.dns() == dns@,
    {
        let mut pool: Vec<Id> = Vec::new();
        let mut i: u8 = FIRST_CLIENT_ID;
        while i < CLIENT_ID_END
            invariant
                FIRST_CLIENT_ID <= i <= CLIENT_ID_END,
                pool@ == Seq::new((i - FIRST_CLIENT_ID) as nat, |j: int| (j + FIRST_CLIENT_ID) as u8),
            decreases CLIENT_ID_END - i,
        {
            pool.push(i);
            i = i + 1;
            assert(pool@ =~= Seq::new((i - FIRST_CLIENT_ID) as nat, |j: int| (j + FIRST_CLIENT_ID) as u8));
        }
        let r = Server {
            pool,
            sessions: SessionTable::new(SESSION_LIFETIME_SECS),
            codec: Codec::new(secret),
            dns,
        };
        proof {
            assert(r.pool() =~= initial_pool());
            assert forall|id: Id| is_client_id(id as int) implies #[trigger] r.pool().contains(id) || r.sessions().contains_key(id) by {
                assert(r.pool()[id - FIRST_CLIENT_ID] == id);
            }
            assert(r.sessions().dom().len() == 0);
        }
        r
    }

    /// Expires the sessions that have outlived their lifetime and returns their
    /// ids to the pool; gives those ids in the order they were pushed.
    pub fn prune(&mut self) -> (r: Vec<Id>)
        requires
            old(self).wf(),
        ensures
            final(self).wf(),
            final(self).same_config(old(self)),
            final(self).pool() == old(self).pool() + r@,
            final(self).sessions() == old(self).sessions().remove_keys(r@.to_set()),
            forall|i: int| 0 <= i < r@.len() ==> old(self).sessions().contains_key(#[trigger] r@[i]),
            exists|now: i64|
                #[trigger] expired_at(old(self).stamps(), SESSION_LIFETIME_SECS as i64, now, r@.to_set()),
    {
        let ghost old_pool = self.pool@;
        let ghost old_sessions = self.sessions();
        let ghost pre = *self;
        let removed = self.sessions.prune();
        let ghost after = self.sessions;
        let mut i: usize = 0;
        while i < removed.len()
            invariant
                i <= removed@.len(),
                self.sessions == after,
                self.codec == pre.codec,
                self.dns == pre.dns,
                self.pool@ == old_pool + removed@.subrange(0, i as int),
            decreases removed@.len() - i,
        {
            self.pool.push(removed[i]);
            i = i + 1;
            assert(self.pool@ =~= old_pool + removed@.subrange(0, i as int));
        }
        proof {
            assert(removed@.subrange(0, i as int) =~= removed@);
            let gone = removed@.to_set();
            let kept = self.sessions();
            removed@.unique_seq_to_set();
            assert(kept.dom() =~= old_sessions.dom().difference(gone));
            assert(self.stamps().dom() =~= kept.dom());
            let now = choose|now: i64|
                expired_at(session_stamps(pre.sessions), session_lifetime(pre.sessions), now, gone);
            assert(expired_at(pre.stamps(), SESSION_LIFETIME_SECS as i64, now, gone));
            assert(old_sessions.dom() =~= kept.dom() + gone);
            assert(kept.dom().disjoint(gone));
            lemma_set_disjoint_lens(kept.dom(), gone);
            assert forall|a: int, b: int| 0 <= a < old_pool.len() && 0 <= b < removed@.len() implies old_pool[a] != removed@[b] by {
                assert(old_sessions.contains_key(removed@[b]));
            }
            lemma_no_dup_in_concat(old_pool, removed@);
            assert forall|id: Id| is_client_id(id as int) implies #[trigger] self.pool().contains(id) || kept.contains_key(id) by {
                if old_pool.contains(id) {
                    let k = choose|k: int| 0 <= k < old_pool.len() && old_pool[k] == id;
                    assert(self.pool()[k] == id);
                } else if gone.contains(id) {
                    let k = choose|k: int| 0 <= k < removed@.len() && removed@[k] == id;
                    assert(self.pool()[old_pool.len() + k] == id);
                }
            }
            assert forall|k: int| 0 <= k < self.pool().len() implies is_client_id(#[trigger] self.pool()[k] as int) && !kept.contains_key(self.pool()[k]) by {
                if k >= old_pool.len() {
                    assert(self.pool()[k] == removed@[k - old_pool.len()]);
                    assert(gone.contains(removed@[k - old_pool.len()]));
                }
            }
        }
        removed
    }

    /// Handles a request from `from` with the fresh token `token`: takes the
    /// top id of the pool, records the session and replies with a sealed
    /// response. Fails, changing nothing, when the pool is empty.
    pub fn accept_request(&mut self, from: PeerAddr, token: Token) -> (r: Result<ServerAction, ServeError>)
        requires
            old(self).wf(),
        ensures
            final(self).wf(),
            final(self).same_config(old(self)),
            request_outcome(old(self), final(self), from, token, &r),
    {
        let ghost pre_pool = self.pool@;
        let ghost pre_sessions = self.sessions();
        match self.pool.pop() {
            None => Err(ServeError::PoolExhausted),
            Some(id) => {
                proof {
                    assert(pre_pool[pre_pool.len() - 1] == id);
                    assert(!pre_sessions.contains_key(id));
                }
                self.sessions.insert(id, token, from);
                let reply = Message::Response { id, token, dns: self.dns.clone() };
                proof {
                    let post = self.sessions();
                    assert(post.dom() =~= pre_sessions.dom().insert(id));
                    assert(self.stamps().dom() =~= post.dom());
                    assert forall|k: int| 0 <= k < self.pool().len() implies is_client_id(#[trigger] self.pool()[k] as int) && !post.contains_key(self.pool()[k]) by {
                        assert(self.pool()[k] == pre_pool[k]);
                    }
                    assert forall|x: Id| is_client_id(x as int) implies #[trigger] self.pool().contains(x) || post.contains_key(x) by {
                        if x != id && pre_pool.contains(x) {
                            let k = choose|k: int| 0 <= k < pre_pool.len() && pre_pool[k] == x;
                            assert(k != pre_pool.len() - 1);
                            assert(self.pool()[k] == x);
                        }
                    }
                    assert(sealable(reply@));
                }
                let datagram = self.codec.seal(&reply);
                Ok(ServerAction::Send { to: from, datagram })
            },
        }
    }

    /// Handles a data message `(id, token, data)` from a client: its payload,
    /// decompressed, goes to the TUN device when the session matches.
    pub fn on_data(&mut self, id: Id, token: Token, data: &[u8]) -> (r: ServerAction)
        requires
            old(self).wf(),
        ensures
            final(self).wf(),
            final(self).same_config(old(self)),
            final(self).pool() == old(self).pool(),
            final(self).sessions() == old(self).sessions(),
            data_outcome(old(self), id, token, data@, r@),
    {
        let found = self.sessions.get(id);
        proof {
            assert(self.stamps().dom() =~= self.sessions().dom());
        }
        match found {
            None => ServerAction::Drop(DropReason::UnknownId),
            Some((t, _)) => {
                if t != token {
                    ServerAction::Drop(DropReason::TokenMismatch)
                } else {
                    match decompress(data) {
                        Some(p) => ServerAction::WriteTun(p),
                        None => ServerAction::Drop(DropReason::BadPayload),
                    }
                }
            },
        }
    }

    /// Handles a datagram received from `from`.
    pub fn handle_datagram(&mut self, d: &[u8], from: PeerAddr) -> (r: Result<ServerAction, ServeError>)
        requires
            old(self).wf(),
        ensures
            final(self).wf(),
            final(self).same_config(old(self)),
            (forall|m: MessageView| sealable(m) ==> d@ != #[trigger] sealed_datagram(old(self).key(), m)) ==> {
                &&& final(self).pool() == old(self).pool()
                &&& final(self).sessions() == old(self).sessions()
                &&& r matches Ok(a) && a@ == ServerActionView::Drop(DropReason::Undecodable)
            },
            forall|m: MessageView|
                sealable(m) && d@ == #[trigger] sealed_datagram(old(self).key(), m) ==> message_outcome(
                    old(self),
                    final(self),
                    m,
                    from,
                    &r,
                ),
    {
        let opened = self.codec.open(d);
        match opened {
            None => Ok(ServerAction::Drop(DropReason::Undecodable)),
            Some(m) => {
                proof {
                    assert forall|x: MessageView| sealable(x) && d@ == #[trigger] sealed_datagram(self.key(), x) implies x == m@ by {}
                }
                match m {
                    Message::Request => {
                        let token = random_token();
                        self.accept_request(from, token)
                    },
                    Message::Response { .. } => Ok(ServerAction::Drop(DropReason::UnexpectedMessage)),
                    Message::Data { id, token, data } => Ok(self.on_data(id, token, data.as_slice())),
                }
            },
        }
    }

    /// Handles an IP packet read from the TUN device: it goes, compressed and
    /// sealed, to the client whose id is the last octet of its destination.
    pub fn on_tun_frame(&mut self, frame: &[u8]) -> (r: ServerAction)
        requires
            old(self).wf(),
            compressible_len(frame@.len() as int),
        ensures
            final(self).wf(),
            final(self).same_config(old(self)),
            final(self).pool() == old(self).pool(),
            final(self).sessions() == old(self).sessions(),
            frame@.len() <= DEST_ID_OFFSET ==> r@ == ServerActionView::Drop(DropReason::ShortFrame),
            frame@.len() > DEST_ID_OFFSET ==> {
                let id = frame@[DEST_ID_OFFSET as int];
                if old(self).sessions().contains_key(id) {
                    r@ == ServerActionView::Send {
                        to: old(self).sessions()[id].1,
                        datagram: sealed_datagram(
                            old(self).key(),
                            MessageView::Data {
                                id,
                                token: old(self).sessions()[id].0,
                                data: snappy_compress_of(frame@),
                            },
                        ),
                    }
                } else {
                    r@ == ServerActionView::Drop(DropReason::UnknownId)
                }
            },
    {
        if frame.len() <= DEST_ID_OFFSET {
            return ServerAction::Drop(DropReason::ShortFrame);
        }
        let id = frame[DEST_ID_OFFSET];
        let found = self.sessions.get(id);
        proof {
            assert(self.stamps().dom() =~= self.sessions().dom());
        }
        match found {
            None => ServerAction::Drop(DropReason::UnknownId),
            Some((token, to)) => {
                let data = compress(frame);
                let msg = Message::Data { id, token, data };
                let datagram = self.codec.seal(&msg);
                ServerAction::Send { to, datagram }
            },
        }
    }
}

/// Every live session has a client id, and no id is both free and live.
pub proof fn lemma_live_ids_are_client_ids(s: &Server)
    requires
        s.wf(),
    ensures
        forall|id: Id| #[trigger] s.sessions().contains_key(id) ==> is_client_id(id as int) && !s.pool().contains(id),
{
    assert forall|id: Id| #[trigger] s.sessions().contains_key(id) implies is_client_id(id as int) && !s.pool().contains(id) by {
        if s.pool().contains(id) {
            let k = choose|k: int| 0 <= k < s.pool().len() && s.pool()[k] == id;
        }
    }
}

/// After a prune that returned ids to the pool, the next request is given the
/// last id returned.
pub proof fn lemma_pruned_id_handed_out_next(
    before: &Server,
    pruned: &Server,
    r: Seq<Id>,
    after: &Server,
    reply: &Result<ServerAction, ServeError>,
    from: PeerAddr,
    token: Token,
)
    requires
        pruned.pool() == before.pool() + r,
        r.len() > 0,
        request_outcome(pruned, after, from, token, reply),
    ensures
        after.sessions().contains_key(r.last()),
        after.sessions()[r.last()] == (token, from),
        reply matches Ok(a) && a@ == (ServerActionView::Send {
            to: from,
            datagram: sealed_datagram(
                pruned.key(),
                (MessageView::Response { id: r.last(), token, dns: pruned.dns() }),
            ),
        }),
{
    assert(pruned.pool().last() == r.last());
}

/// The free ids and the live sessions together always number 252.
pub proof fn lemma_pool_and_sessions_count(s: &Server)
    requires
        s.wf(),
    ensures
        s.pool().len() + s.sessions().dom().len() == CLIENT_ID_COUNT,
{
}

} // verus!
