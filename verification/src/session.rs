//! A player's session and its session-level results.
use std::time::SystemTime;
use vstd::prelude::*;
use crate::coord::Coord;
use crate::message::{Message, MessageType, PeerAddr};

verus! {

pub const SESSERR_NONE: u8 = 0;
pub const SESSERR_AUTH: u8 = 1;
pub const SESSERR_BUSY: u8 = 2;
pub const SESSERR_CONN: u8 = 3;
pub const SESSERR_PVER: u8 = 4;
pub const SESSERR_EXPR: u8 = 5;
pub const SESSERR_MESG: u8 = 6;

/// The outcome of a session request, as the one byte the client is answered with.
#[derive(Debug, Copy, Clone, PartialEq, Eq, Structural)]
pub enum SessionError {
    Success,
    Auth,
    Busy,
    Conn,
    Pver,
    Expr,
    Mesg,
    Error,
}

/// The byte that answers a session request with outcome `e`.
pub open spec fn session_error_code(e: SessionError) -> u8 {
    match e {
        SessionError::Success => SESSERR_NONE,
        SessionError::Auth => SESSERR_AUTH,
        SessionError::Busy => SESSERR_BUSY,
        SessionError::Conn => SESSERR_CONN,
        SessionError::Pver => SESSERR_PVER,
        SessionError::Expr => SESSERR_EXPR,
        SessionError::Mesg => SESSERR_MESG,
        SessionError::Error => 255,
    }
}

impl SessionError {
    pub fn as_u8(&self) -> (b: u8)
        ensures
            b == session_error_code(*self),
    {
        match self {
            SessionError::Success => SESSERR_NONE,
            SessionError::Auth => SESSERR_AUTH,
            SessionError::Busy => SESSERR_BUSY,
            SessionError::Conn => SESSERR_CONN,
            SessionError::Pver => SESSERR_PVER,
            SessionError::Expr => SESSERR_EXPR,
            SessionError::Mesg => SESSERR_MESG,
            SessionError::Error => 255,
        }
    }
}

#[verifier::external_type_specification]
#[verifier::external_body]
pub struct ExSystemTime(SystemTime);

/// `SystemTime::now`: the current wall-clock time; nothing is promised of its value.
pub assume_specification[ SystemTime::now ]() -> SystemTime;

/// The requests after asking for the map around `c`: unchanged when it is already asked for,
/// else with `c` at the end.
pub open spec fn with_request(reqs: Seq<Coord>, c: Coord) -> Seq<Coord> {
    if reqs.contains(c) {
        reqs
    } else {
        reqs.push(c)
    }
}

/// The requests with every request for `c` dropped, the others kept in order.
pub open spec fn without_request(reqs: Seq<Coord>, c: Coord) -> Seq<Coord>
    decreases reqs.len(),
{
    if reqs.len() == 0 {
        reqs
    } else if reqs.last() == c {
        without_request(reqs.drop_last(), c)
    } else {
        without_request(reqs.drop_last(), c).push(reqs.last())
    }
}

/// What a session is, as plain values: its user name, its peer address, the map regions
/// it has asked for (each as `(x, y)`, oldest first) and when it was last heard from.
pub type SessionView = (Seq<char>, PeerAddr, Seq<(i32, i32)>, SystemTime);

/// Map regions as `(x, y)` pairs.
pub open spec fn coord_pairs(reqs: Seq<Coord>) -> Seq<(i32, i32)> {
    reqs.map_values(|c: Coord| (c.x, c.y))
}

/// The view of a fresh session for `username` at `addr`, last heard from at `now`.
pub open spec fn new_session_view(username: Seq<char>, addr: PeerAddr, now: SystemTime) -> SessionView {
    (username, addr, Seq::empty(), now)
}

/// A connected player: who it is, where it is, when it was last heard from,
/// and which map regions it has asked for.
#[derive(Debug)]
pub struct Session {
    username: String,
    sock_addr: PeerAddr,
    last_heartbeat: SystemTime,
    map_requests: Vec<Coord>,
}

impl View for Session {
    type V = SessionView;

    open spec fn view(&self) -> SessionView {
        (self.username(), self.sock_addr(), coord_pairs(self.map_requests()), self.last_heartbeat())
    }
}

impl Session {
    pub closed spec fn username(&self) -> Seq<char> {
        self.username@
    }

    pub closed spec fn sock_addr(&self) -> PeerAddr {
        self.sock_addr
    }

    /// The map regions asked for, oldest first.
    pub closed spec fn map_requests(&self) -> Seq<Coord> {
        self.map_requests@
    }

    /// When the client was last heard from.
    pub closed spec fn last_heartbeat(&self) -> SystemTime {
        self.last_heartbeat
    }

    /// A session for `username` at `sock_addr`, last heard from at the current time.
    pub fn new(username: String, sock_addr: PeerAddr) -> (s: Self)
        ensures
            s.username() == username@,
            s.sock_addr() == sock_addr,
            s.map_requests() == Seq::<Coord>::empty(),
    {
        Self::new_at(username, sock_addr, SystemTime::now())
    }

    /// A session for `username` at `sock_addr`, last heard from at `now`.
    pub fn new_at(username: String, sock_addr: PeerAddr, now: SystemTime) -> (s: Self)
        ensures
            s.username() == username@,
            s.sock_addr() == sock_addr,
            s.map_requests() == Seq::<Coord>::empty(),
            s.last_heartbeat() == now,
    {
        Self { username, sock_addr, last_heartbeat: now, map_requests: Vec::new() }
    }

    /// Asks for the map around `coord`, unless it is already asked for.
    pub fn add_map_request(&mut self, coord: Coord)
        ensures
            final(self).map_requests() == with_request(old(self).map_requests(), coord),
            final(self).username() == old(self).username(),
            final(self).sock_addr() == old(self).sock_addr(),
            final(self).last_heartbeat() == old(self).last_heartbeat(),
            old(self).map_requests().no_duplicates() ==> final(self).map_requests().no_duplicates(),
    {
        proof {
            if self.map_requests@.no_duplicates() {
                law_add_request_keeps_distinct(self.map_requests@, coord);
            }
        }
        let n = self.map_requests.len();
        let mut i: usize = 0;
        let mut found = false;
        while i < n
            invariant
                n == self.map_requests@.len(),
                i <= n,
                found <==> exists|j: int| 0 <= j < i && self.map_requests@[j] == coord,
            decreases n - i,
        {
            if self.map_requests[i] == coord {
                found = true;
            }
            i = i + 1;
        }
        if !found {
            self.map_requests.push(coord);
        } else {
            assert(self.map_requests@.contains(coord));
        }
    }

    /// Drops every request for the map around `coord`.
    pub fn remove_map_request(&mut self, coord: Coord)
        ensures
            final(self).map_requests() == without_request(old(self).map_requests(), coord),
            final(self).username() == old(self).username(),
            final(self).sock_addr() == old(self).sock_addr(),
            final(self).last_heartbeat() == old(self).last_heartbeat(),
            old(self).map_requests().no_duplicates() ==> final(self).map_requests().no_duplicates(),
    {
        proof {
            law_remove_request(self.map_requests@, coord, coord);
        }
        let ghost s = self.map_requests@;
        let n = self.map_requests.len();
        let mut kept: Vec<Coord> = Vec::new();
        let mut i: usize = 0;
        while i < n
            invariant
                n == s.len(),
                self.map_requests@ == s,
                i <= n,
                kept@ == without_request(s.take(i as int), coord),
            decreases n - i,
        {
            let x = self.map_requests[i];
            proof {
                assert(s.take(i + 1).drop_last() =~= s.take(i as int));
            }
            if x != coord {
                kept.push(x);
            }
            i = i + 1;
        }
        proof {
            assert(s.take(n as int) =~= s);
        }
        self.map_requests = kept;
    }

    /// Takes note of a message from the client: a heartbeat renews the time it was
    /// last heard from to the current time; other kinds change nothing.
    pub fn receive_msg(&mut self, msg: Message)
        ensures
            final(self).map_requests() == old(self).map_requests(),
            final(self).username() == old(self).username(),
            final(self).sock_addr() == old(self).sock_addr(),
            msg.msg_type != MessageType::Beat ==> *final(self) == *old(self),
    {
        self.receive_msg_at(msg, SystemTime::now());
    }

    /// Takes note of a message from the client, received at `now`: a heartbeat records
    /// `now` as the time it was last heard from; other kinds change nothing.
    pub fn receive_msg_at(&mut self, msg: Message, now: SystemTime)
        ensures
            final(self).map_requests() == old(self).map_requests(),
            final(self).username() == old(self).username(),
            final(self).sock_addr() == old(self).sock_addr(),
            msg.msg_type == MessageType::Beat ==> final(self).last_heartbeat() == now,
            msg.msg_type != MessageType::Beat ==> *final(self) == *old(self),
    {
        match msg.msg_type {
            MessageType::Beat => {
                self.beat_at(now);
            },
            MessageType::MapRequest => {},
            _ => {},
        }
    }

    pub fn get_map_requests(&self) -> (r: &Vec<Coord>)
        ensures
            r@ == self.map_requests(),
    {
        &self.map_requests
    }

    /// Renews the time the client was last heard from to the current time.
    pub fn beat(&mut self)
        ensures
            final(self).map_requests() == old(self).map_requests(),
            final(self).username() == old(self).username(),
            final(self).sock_addr() == old(self).sock_addr(),
    {
        self.beat_at(SystemTime::now());
    }

    /// Records that the client was heard from at `now`.
    pub fn beat_at(&mut self, now: SystemTime)
        ensures
            final(self).last_heartbeat() == now,
            final(self).map_requests() == old(self).map_requests(),
            final(self).username() == old(self).username(),
            final(self).sock_addr() == old(self).sock_addr(),
    {
        self.last_heartbeat = now;
    }
}

/// A coordinate is kept by dropping requests for `c` exactly when it was there and is not `c`.
pub proof fn lemma_without_request_contains(reqs: Seq<Coord>, c: Coord, d: Coord)
    ensures
        without_request(reqs, c).contains(d) <==> (reqs.contains(d) && d != c),
    decreases reqs.len(),
{
    if reqs.len() > 0 {
        let init = reqs.drop_last();
        let last = reqs.last();
        let w = without_request(init, c);
        lemma_without_request_contains(init, c, d);
        assert(reqs =~= init.push(last));
        assert(reqs.contains(d) <==> (init.contains(d) || d == last)) by {
            if reqs.contains(d) {
                let k = choose|k: int| 0 <= k < reqs.len() && reqs[k] == d;
                if k < init.len() {
                    assert(init[k] == d);
                }
            }
            if init.contains(d) {
                let k = choose|k: int| 0 <= k < init.len() && init[k] == d;
                assert(reqs[k] == d);
            }
            if d == last {
                assert(reqs[reqs.len() - 1] == d);
            }
        }
        if last != c {
            assert(w.push(last).contains(d) <==> (w.contains(d) || d == last)) by {
                if w.push(last).contains(d) {
                    let k = choose|k: int| 0 <= k < w.push(last).len() && w.push(last)[k] == d;
                    if k < w.len() {
                        assert(w[k] == d);
                    }
                }
                if w.contains(d) {
                    let k = choose|k: int| 0 <= k < w.len() && w[k] == d;
                    assert(w.push(last)[k] == d);
                }
                if d == last {
                    assert(w.push(last)[w.len() as int] == d);
                }
            }
        }
    }
}

/// Dropping the requests for `c` keeps a list free of repeats free of repeats.
pub proof fn lemma_without_request_no_duplicates(reqs: Seq<Coord>, c: Coord)
    requires
        reqs.no_duplicates(),
    ensures
        without_request(reqs, c).no_duplicates(),
    decreases reqs.len(),
{
    if reqs.len() > 0 {
        let init = reqs.drop_last();
        assert(init.no_duplicates()) by {
            assert forall|i: int, j: int|
                0 <= i < init.len() && 0 <= j < init.len() && i != j implies init[i] != init[j] by {
                assert(init[i] == reqs[i] && init[j] == reqs[j]);
            }
        }
        lemma_without_request_no_duplicates(init, c);
        if reqs.last() != c {
            lemma_without_request_contains(init, c, reqs.last());
            assert(!init.contains(reqs.last())) by {
                if init.contains(reqs.last()) {
                    let k = choose|k: int| 0 <= k < init.len() && init[k] == reqs.last();
                    assert(reqs[k] == reqs[reqs.len() - 1]);
                }
            }
            let w = without_request(init, c);
            assert forall|i: int, j: int|
                0 <= i < w.push(reqs.last()).len() && 0 <= j < w.push(reqs.last()).len() && i
                    != j implies w.push(reqs.last())[i] != w.push(reqs.last())[j] by {
                if i == w.len() {
                    assert(w[j] == w.push(reqs.last())[j]);
                    assert(w.contains(w[j]));
                } else if j == w.len() {
                    assert(w.contains(w[i]));
                }
            }
        }
    }
}

/// Dropping requests for a coordinate that is not asked for changes nothing.
pub proof fn lemma_without_absent(reqs: Seq<Coord>, c: Coord)
    requires
        !reqs.contains(c),
    ensures
        without_request(reqs, c) == reqs,
    decreases reqs.len(),
{
    if reqs.len() > 0 {
        let init = reqs.drop_last();
        assert(!init.contains(c)) by {
            if init.contains(c) {
                let k = choose|k: int| 0 <= k < init.len() && init[k] == c;
                assert(reqs[k] == c);
            }
        }
        lemma_without_absent(init, c);
        assert(reqs.last() != c) by {
            assert(reqs[reqs.len() - 1] == reqs.last());
        }
        assert(init.push(reqs.last()) =~= reqs);
    }
}

/// After asking for a region, it is asked for; asking again changes nothing.
pub proof fn law_add_request(reqs: Seq<Coord>, c: Coord)
    ensures
        with_request(reqs, c).contains(c),
        with_request(with_request(reqs, c), c) == with_request(reqs, c),
{
    if !reqs.contains(c) {
        assert(reqs.push(c)[reqs.len() as int] == c);
    }
}

/// Asking for a region never makes a request appear twice.
pub proof fn law_add_request_keeps_distinct(reqs: Seq<Coord>, c: Coord)
    requires
        reqs.no_duplicates(),
    ensures
        with_request(reqs, c).no_duplicates(),
{
    if !reqs.contains(c) {
        let r = reqs.push(c);
        assert forall|i: int, j: int| 0 <= i < r.len() && 0 <= j < r.len() && i != j implies r[i]
            != r[j] by {
            if i == reqs.len() {
                assert(reqs.contains(r[j]));
            } else if j == reqs.len() {
                assert(reqs.contains(r[i]));
            } else {
                assert(r[i] == reqs[i] && r[j] == reqs[j]);
            }
        }
    }
}

/// After dropping a region it is no longer asked for, every other region stays as it was,
/// and a list without repeats stays without repeats.
pub proof fn law_remove_request(reqs: Seq<Coord>, c: Coord, d: Coord)
    ensures
        !without_request(reqs, c).contains(c),
        d != c ==> (without_request(reqs, c).contains(d) <==> reqs.contains(d)),
        reqs.no_duplicates() ==> without_request(reqs, c).no_duplicates(),
{
    lemma_without_request_contains(reqs, c, c);
    lemma_without_request_contains(reqs, c, d);
    if reqs.no_duplicates() {
        lemma_without_request_no_duplicates(reqs, c);
    }
}

/// Dropping a region that was just asked for, and was not asked for before, undoes the request.
pub proof fn law_remove_undoes_add(reqs: Seq<Coord>, c: Coord)
    requires
        !reqs.contains(c),
    ensures
        without_request(with_request(reqs, c), c) == reqs,
{
    lemma_without_absent(reqs, c);
    assert(reqs.push(c).drop_last() =~= reqs);
    assert(reqs.push(c).last() == c);
}

} // verus!
