//! The table of open sessions, keyed by peer address.
use dashmap::DashMap;
use vstd::prelude::*;
use crate::message::{MessageAddr, PeerAddr};
use crate::session::{Session, SessionError, SessionView};

verus! {

#[verifier::external_type_specification]
#[verifier::external_body]
#[verifier::reject_recursive_types(K)]
#[verifier::reject_recursive_types(V)]
#[verifier::reject_recursive_types(S)]
pub struct ExDashMap<K, V, S>(DashMap<K, V, S>);

/// The sessions that the map holds: for each peer address with a session, the view of
/// that session.
pub uninterp spec fn session_table(m: DashMap<PeerAddr, Session>) -> Map<PeerAddr, SessionView>;

/// `DashMap::new`: an empty map.
#[verifier::external_body]
fn sessions_new() -> (m: DashMap<PeerAddr, Session>)
    ensures
        session_table(m) =~= Map::empty(),
{
    DashMap::new()
}

/// `DashMap::contains_key`: whether a session is held for `addr`.
#[verifier::external_body]
fn sessions_contains(m: &DashMap<PeerAddr, Session>, addr: &PeerAddr) -> (r: bool)
    ensures
        r == session_table(*m).dom().contains(*addr),
{
    m.contains_key(addr)
}

/// `DashMap::get`: whether a session is held for `addr` (the entry itself is not kept).
#[verifier::external_body]
fn sessions_get_present(m: &DashMap<PeerAddr, Session>, addr: &PeerAddr) -> (r: bool)
    ensures
        r == session_table(*m).dom().contains(*addr),
{
    m.get(addr).is_some()
}

/// `DashMap::insert`: afterwards `addr` holds `session`, whatever it held before; the
/// other addresses keep theirs.
#[verifier::external_body]
fn sessions_insert(m: &mut DashMap<PeerAddr, Session>, addr: PeerAddr, session: Session)
    ensures
        session_table(*final(m)) == session_table(*old(m)).insert(addr, session@),
{
    m.insert(addr, session);
}

/// `DashMap::remove`: afterwards `addr` holds nothing and the other addresses keep their
/// sessions; tells whether it held a session.
#[verifier::external_body]
fn sessions_remove(m: &mut DashMap<PeerAddr, Session>, addr: &PeerAddr) -> (r: bool)
    ensures
        r == session_table(*old(m)).dom().contains(*addr),
        session_table(*final(m)) == session_table(*old(m)).remove(*addr),
{
    m.remove(addr).is_some()
}

/// There was no session to close for the address.
#[derive(Debug, PartialEq, Eq, Structural, Clone, Copy)]
pub struct UnknownSession;

/// The outcome of opening the session `v` at `addr` when `users` are the open sessions,
/// and the open sessions afterwards: a second session for one address is refused.
pub open spec fn add_session_spec(users: Map<PeerAddr, SessionView>, addr: PeerAddr, v: SessionView) -> (
    SessionError,
    Map<PeerAddr, SessionView>,
) {
    if users.dom().contains(addr) {
        (SessionError::Busy, users)
    } else {
        (SessionError::Success, users.insert(addr, v))
    }
}

/// The outcome of closing the session of `addr` when `users` are the open sessions, and
/// the open sessions afterwards.
pub open spec fn close_session_spec(users: Map<PeerAddr, SessionView>, addr: PeerAddr) -> (
    Result<u8, UnknownSession>,
    Map<PeerAddr, SessionView>,
) {
    if users.dom().contains(addr) {
        (Ok(0), users.remove(addr))
    } else {
        (Err(UnknownSession), users)
    }
}

/// The server state shared by all peers: the open sessions.
pub struct global {
    sessions: DashMap<PeerAddr, Session>,
}

impl global {
    /// The open sessions: the view of the session at each peer address that has one.
    pub closed spec fn table(&self) -> Map<PeerAddr, SessionView> {
        session_table(self.sessions)
    }

    pub fn new() -> (g: Self)
        ensures
            g.table() =~= Map::empty(),
    {
        global { sessions: sessions_new() }
    }

    /// Opens `session` at `addr`, unless one is open there already.
    pub fn add_session(&mut self, addr: PeerAddr, session: Session) -> (r: SessionError)
        ensures
            (r, final(self).table()) == add_session_spec(old(self).table(), addr, session@),
    {
        if sessions_contains(&self.sessions, &addr) {
            return SessionError::Busy;
        }
        sessions_insert(&mut self.sessions, addr, session);
        SessionError::Success
    }

    /// Closes the session of `addr`; an address without a session is refused.
    pub fn close_session(&mut self, addr: PeerAddr) -> (r: Result<u8, UnknownSession>)
        ensures
            (r, final(self).table()) == close_session_spec(old(self).table(), addr),
    {
        if sessions_contains(&self.sessions, &addr) {
            sessions_remove(&mut self.sessions, &addr);
            Ok(0)
        } else {
            Err(UnknownSession)
        }
    }

    /// Looks up the session of the message's sender; nothing is done with it yet.
    pub fn receive_msg(&self, msg: MessageAddr) {
        let _present = sessions_get_present(&self.sessions, &msg.socket_addr);
    }
}

/// Opening a session at a free address succeeds, and opening a second one there is refused
/// without a change.
pub proof fn law_second_session_is_busy(
    table: Map<PeerAddr, SessionView>,
    addr: PeerAddr,
    session: SessionView,
    other: SessionView,
)
    requires
        !table.dom().contains(addr),
    ensures
        add_session_spec(table, addr, session).0 == SessionError::Success,
        add_session_spec(table, addr, session).1[addr] == session,
        add_session_spec(add_session_spec(table, addr, session).1, addr, other) == (
            SessionError::Busy,
            add_session_spec(table, addr, session).1,
        ),
{
}

/// Closing a session that was just opened at a free address succeeds and gives back the
/// sessions as they were.
pub proof fn law_close_undoes_add(table: Map<PeerAddr, SessionView>, addr: PeerAddr, session: SessionView)
    requires
        !table.dom().contains(addr),
    ensures
        close_session_spec(add_session_spec(table, addr, session).1, addr) == (
            Ok::<u8, UnknownSession>(0),
            table,
        ),
{
    assert(table.insert(addr, session).remove(addr) =~= table);
}

/// Closing at an address without a session is refused and changes nothing; after a close,
/// the address is free to open again; opening or closing at one address leaves the
/// sessions at every other address as they were.
pub proof fn law_close_then_reopen(
    table: Map<PeerAddr, SessionView>,
    addr: PeerAddr,
    session: SessionView,
    other: PeerAddr,
)
    ensures
        !table.dom().contains(addr) ==> close_session_spec(table, addr) == (
            Err::<u8, UnknownSession>(UnknownSession),
            table,
        ),
        add_session_spec(close_session_spec(table, addr).1, addr, session).0 == SessionError::Success,
        other != addr ==> (add_session_spec(table, addr, session).1.dom().contains(other)
            == table.dom().contains(other) && add_session_spec(table, addr, session).1[other]
            == table[other]),
        other != addr ==> (close_session_spec(table, addr).1.dom().contains(other)
            == table.dom().contains(other) && close_session_spec(table, addr).1[other]
            == table[other]),
{
}

} // verus!
