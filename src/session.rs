//! The server's table of live sessions, held in a `TransientHashMap` whose
//! entries expire after a fixed time without use.
use vstd::prelude::*;
use crate::message::{Id, Token};

verus! {

/// A UDP endpoint: an IPv4 address (in the low 32 bits of `ip`) or an IPv6
/// address, and a port.
#[derive(Clone, Copy, Debug, PartialEq, Eq, Structural)]
pub struct PeerAddr {
    pub ip: u128,
    pub is_v6: bool,
    pub port: u16,
}

/// Live sessions: for each id, its token and the peer's address.
#[verifier::external_body]
pub struct SessionTable {
    table: transient_hashmap::TransientHashMap<Id, (Token, PeerAddr)>,
}

/// The sessions that a table holds.
pub uninterp spec fn live_sessions(t: SessionTable) -> Map<Id, (Token, PeerAddr)>;

/// When each entry of a table was last used, in seconds of the table's clock.
pub uninterp spec fn session_stamps(t: SessionTable) -> Map<Id, i64>;

/// The lifetime in seconds that a table was made with.
pub uninterp spec fn session_lifetime(t: SessionTable) -> i64;

/// `gone` holds exactly the entries whose last use is at least `lifetime`
/// seconds before `now`.
pub open spec fn expired_at(stamps: Map<Id, i64>, lifetime: i64, now: i64, gone: Set<Id>) -> bool {
    forall|k: Id| #[trigger] stamps.contains_key(k) ==> (gone.contains(k) <==> now - stamps[k] >= lifetime)
}

impl SessionTable {
    /// Relies on `TransientHashMap::new`: an empty map whose entries live for
    /// `lifetime_secs` seconds after their last use.
    #[verifier::external_body]
    pub(crate) fn new(lifetime_secs: u32) -> (r: SessionTable)
        ensures
            live_sessions(r).dom() == Set::<Id>::empty(),
            session_stamps(r).dom() == Set::<Id>::empty(),
            session_lifetime(r) == lifetime_secs,
    {
        SessionTable { table: transient_hashmap::TransientHashMap::new(lifetime_secs) }
    }

    /// Relies on `TransientHashMap::insert`: the entry is set and its use noted
    /// at the clock's current time; other entries keep their times.
    #[verifier::external_body]
    pub(crate) fn insert(&mut self, id: Id, token: Token, peer: PeerAddr)
        ensures
            live_sessions(*final(self)) == live_sessions(*old(self)).insert(id, (token, peer)),
            session_stamps(*final(self)).dom() == session_stamps(*old(self)).dom().insert(id),
            forall|k: Id| k != id && session_stamps(*old(self)).contains_key(k) ==> #[trigger] session_stamps(*final(self))[k] == session_stamps(*old(self))[k],
            session_lifetime(*final(self)) == session_lifetime(*old(self)),
    {
        self.table.insert(id, (token, peer));
    }

    /// Relies on `TransientHashMap::get`: it returns the entry of `id`, if any,
    /// and notes its use (of that entry alone) without changing what the map
    /// holds.
    #[verifier::external_body]
    pub(crate) fn get(&mut self, id: Id) -> (r: Option<(Token, PeerAddr)>)
        ensures
            live_sessions(*final(self)) == live_sessions(*old(self)),
            session_stamps(*final(self)).dom() == session_stamps(*old(self)).dom()
                .union(if live_sessions(*old(self)).contains_key(id) { set![id] } else { Set::empty() }),
            forall|k: Id| k != id && session_stamps(*old(self)).contains_key(k) ==> #[trigger] session_stamps(*final(self))[k] == session_stamps(*old(self))[k],
            session_lifetime(*final(self)) == session_lifetime(*old(self)),
            r == (if live_sessions(*old(self)).contains_key(id) {
                Some(live_sessions(*old(self))[id])
            } else {
                None
            }),
    {
        self.table.get(&id).copied()
    }

    /// Relies on `TransientHashMap::prune`: it reads the clock once and removes,
    /// with their times, the entries whose time is at least the lifetime before
    /// that reading, returning their keys, each once.
    #[verifier::external_body]
    pub(crate) fn prune(&mut self) -> (r: Vec<Id>)
        ensures
            r@.no_duplicates(),
            forall|i: int| 0 <= i < r@.len() ==> session_stamps(*old(self)).contains_key(#[trigger] r@[i]),
            exists|now: i64|
                #[trigger] expired_at(session_stamps(*old(self)), session_lifetime(*old(self)), now, r@.to_set()),
            live_sessions(*final(self)) == live_sessions(*old(self)).remove_keys(r@.to_set()),
            session_stamps(*final(self)) == session_stamps(*old(self)).remove_keys(r@.to_set()),
            session_lifetime(*final(self)) == session_lifetime(*old(self)),
    {
        self.table.prune()
    }
}

} // verus!
