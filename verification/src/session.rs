//! The tunnel server's session table: one session per session id, found by
//! id, by transport address or by tunnel address, and forgotten an hour after
//! the client was last seen.

use vstd::prelude::*;
use vstd::string::*;
use crate::ip::Ipv4Addr;
use crate::text::{clone_strings, str_eq, string_views};

verus! {

broadcast use vstd::std_specs::vec::group_vec_axioms;

/// A transport-level peer address (what `std::net::SocketAddr` holds): the IP
/// address as a 128-bit value, whether it is IPv6, the port, and the IPv6 flow
/// information and scope.
#[derive(Debug, Clone, Copy, PartialEq, Eq, Structural, Hash)]
pub struct PeerAddr {
    pub ip: u128,
    pub is_v6: bool,
    pub port: u16,
    pub flowinfo: u32,
    pub scope_id: u32,
}

/// The TUN device settings the server hands to a client.
#[derive(Debug)]
pub struct TunConfig {
    pub name: String,
    pub address: String,
    pub netmask: String,
    pub destination: String,
    pub dns: Vec<String>,
    pub mtu: u32,
}

/// The settings have the same contents.
pub open spec fn same_tun(a: TunConfig, b: TunConfig) -> bool {
    &&& a.name@ == b.name@
    &&& a.address@ == b.address@
    &&& a.netmask@ == b.netmask@
    &&& a.destination@ == b.destination@
    &&& string_views(a.dns@) == string_views(b.dns@)
    &&& a.mtu == b.mtu
}

impl TunConfig {
    /// A copy of the settings.
    pub fn duplicate(&self) -> (c: TunConfig)
        ensures
            same_tun(c, *self),
    {
        let dns = clone_strings(&self.dns);
        TunConfig {
            name: self.name.clone(),
            address: self.address.clone(),
            netmask: self.netmask.clone(),
            destination: self.destination.clone(),
            dns,
            mtu: self.mtu,
        }
    }
}

/// A client known to the server: its session id, transport address, virtual
/// address on the tunnel, TUN settings, when it was last seen (nanoseconds
/// since the UNIX epoch), and the link the server uses to reach it.
#[derive(Debug)]
pub struct Session<T> {
    pub session_id: String,
    pub addr: PeerAddr,
    pub virtual_ip: Ipv4Addr,
    pub tun_config: TunConfig,
    pub last_seen: u128,
    pub link: T,
}

/// No two sessions share an id.
pub open spec fn ids_unique<T>(s: Seq<Session<T>>) -> bool {
    forall|i: int, j: int|
        0 <= i < s.len() && 0 <= j < s.len() && i != j ==> (#[trigger] s[i]).session_id@
            != (#[trigger] s[j]).session_id@
}

/// The position of the session with id `id`.
pub open spec fn position_of_id<T>(s: Seq<Session<T>>, id: Seq<char>) -> Option<int> {
    if exists|i: int| 0 <= i < s.len() && (#[trigger] s[i]).session_id@ == id {
        Some(choose|i: int| 0 <= i < s.len() && (#[trigger] s[i]).session_id@ == id)
    } else {
        None
    }
}

/// The sessions by id: the table seen as a map.
pub open spec fn by_id<T>(s: Seq<Session<T>>) -> Map<Seq<char>, Session<T>> {
    Map::new(
        |id: Seq<char>| position_of_id(s, id) is Some,
        |id: Seq<char>| s[position_of_id(s, id)->0],
    )
}

/// The sessions after storing `session`: it replaces the session with its id,
/// if there is one, and is added at the end otherwise.
pub open spec fn with_session<T>(s: Seq<Session<T>>, session: Session<T>) -> Seq<Session<T>> {
    match position_of_id(s, session.session_id@) {
        Some(i) => s.update(i, session),
        None => s.push(session),
    }
}

/// The position of the first session at or after `k` for which `p` holds.
pub open spec fn first_from<T>(s: Seq<Session<T>>, p: spec_fn(Session<T>) -> bool, k: int) -> Option<int>
    decreases s.len() - k,
{
    if k < 0 || k >= s.len() {
        None
    } else if p(s[k]) {
        Some(k)
    } else {
        first_from(s, p, k + 1)
    }
}

/// The position of the first session for which `p` holds.
pub open spec fn first_where<T>(s: Seq<Session<T>>, p: spec_fn(Session<T>) -> bool) -> Option<int> {
    first_from(s, p, 0)
}

/// The session has transport address `addr`.
pub open spec fn addr_is<T>(addr: PeerAddr) -> spec_fn(Session<T>) -> bool {
    |s: Session<T>| s.addr == addr
}

/// The session has virtual address `ip`.
pub open spec fn virtual_ip_is<T>(ip: Ipv4Addr) -> spec_fn(Session<T>) -> bool {
    |s: Session<T>| s.virtual_ip == ip
}

/// How long a session is kept after it was last seen: one hour, in nanoseconds.
pub open spec fn session_lifetime() -> u128 {
    3_600_000_000_000u128
}

/// The session was seen less than an hour before `now` (and not after it).
pub open spec fn is_fresh<T>(s: Session<T>, now: u128) -> bool {
    s.last_seen <= now && now - s.last_seen < session_lifetime()
}

/// The sessions that are still fresh at `now`, in order.
pub open spec fn fresh_sessions<T>(s: Seq<Session<T>>, now: u128) -> Seq<Session<T>>
    decreases s.len(),
{
    if s.len() == 0 {
        s
    } else {
        let rest = fresh_sessions(s.drop_last(), now);
        if is_fresh(s.last(), now) {
            rest.push(s.last())
        } else {
            rest
        }
    }
}

/// The sessions of the server, at most one per session id.
pub struct SessionTable<T> {
    sessions: Vec<Session<T>>,
}

impl<T> SessionTable<T> {
    #[verifier::type_invariant]
    spec fn unique_ids(self) -> bool {
        ids_unique(self.sessions@)
    }

    /// The sessions, in the order they were first stored.
    pub closed spec fn entries(self) -> Seq<Session<T>> {
        self.sessions@
    }

    /// A table without sessions.
    pub fn new() -> (t: SessionTable<T>)
        ensures
            t.entries() == Seq::<Session<T>>::empty(),
            ids_unique(t.entries()),
    {
        SessionTable { sessions: Vec::new() }
    }

    /// The number of sessions.
    pub fn len(&self) -> (n: usize)
        ensures
            n == self.entries().len(),
            ids_unique(self.entries()),
    {
        proof {
            use_type_invariant(self);
        }
        self.sessions.len()
    }

    /// The position of the session with id `id`.
    fn position_of(&self, id: &str) -> (r: Option<usize>)
        ensures
            match r {
                Some(i) => i < self.entries().len() && self.entries()[i as int].session_id@ == id@,
                None => position_of_id(self.entries(), id@) is None,
            },
    {
        let mut i: usize = 0;
        while i < self.sessions.len()
            invariant
                i <= self.sessions@.len(),
                forall|j: int| 0 <= j < i ==> (#[trigger] self.sessions@[j]).session_id@ != id@,
            decreases self.sessions.len() - i,
        {
            if str_eq(self.sessions[i].session_id.as_str(), id) {
                return Some(i);
            }
            i += 1;
        }
        None
    }

    /// The session with id `id`, if there is one.
    pub fn find_by_id(&self, id: &str) -> (r: Option<&Session<T>>)
        ensures
            match position_of_id(self.entries(), id@) {
                Some(i) => r == Some(&self.entries()[i]),
                None => r is None,
            },
    {
        proof {
            use_type_invariant(self);
        }
        match self.position_of(id) {
            Some(i) => Some(&self.sessions[i]),
            None => None,
        }
    }

    /// Stores `session`, replacing the session with the same id.
    pub fn insert(&mut self, session: Session<T>)
        ensures
            final(self).entries() == with_session(old(self).entries(), session),
            ids_unique(final(self).entries()),
    {
        proof {
            use_type_invariant(&*self);
        }
        let ghost before = self.sessions@;
        let ghost id = session.session_id@;
        match self.position_of(session.session_id.as_str()) {
            Some(i) => {
                assert(position_of_id(before, id) == Some(i as int));
                let mut sessions: Vec<Session<T>> = Vec::new();
                std::mem::swap(&mut sessions, &mut self.sessions);
                sessions.set(i, session);
                proof {
                    assert forall|a: int, b: int|
                        0 <= a < sessions@.len() && 0 <= b < sessions@.len() && a != b implies (
                        #[trigger] sessions@[a]).session_id@ != (#[trigger] sessions@[b]).session_id@ by {
                        if a != i && b != i {
                            assert(before[a] == sessions@[a] && before[b] == sessions@[b]);
                        } else if a == i {
                            assert(before[b] == sessions@[b]);
                        } else {
                            assert(before[a] == sessions@[a]);
                        }
                    }
                }
                self.sessions = sessions;
            },
            None => {
                let mut sessions: Vec<Session<T>> = Vec::new();
                std::mem::swap(&mut sessions, &mut self.sessions);
                sessions.push(session);
                proof {
                    assert forall|a: int, b: int|
                        0 <= a < sessions@.len() && 0 <= b < sessions@.len() && a != b implies (
                        #[trigger] sessions@[a]).session_id@ != (#[trigger] sessions@[b]).session_id@ by {
                        if a < before.len() && b < before.len() {
                            assert(before[a] == sessions@[a] && before[b] == sessions@[b]);
                        } else if a < before.len() {
                            assert(before[a] == sessions@[a]);
                        } else {
                            assert(before[b] == sessions@[b]);
                        }
                    }
                }
                self.sessions = sessions;
            },
        }
    }

    /// Forgets the first session with transport address `addr` and hands it back.
    pub fn remove_by_addr(&mut self, addr: PeerAddr) -> (r: Option<Session<T>>)
        ensures
            match first_where(old(self).entries(), addr_is::<T>(addr)) {
                Some(i) => r == Some(old(self).entries()[i]) && final(self).entries()
                    == old(self).entries().remove(i),
                None => r is None && final(self).entries() == old(self).entries(),
            },
            ids_unique(final(self).entries()),
    {
        proof {
            use_type_invariant(&*self);
        }
        let ghost before = self.sessions@;
        let ghost p = addr_is::<T>(addr);
        let mut i: usize = 0;
        while i < self.sessions.len()
            invariant
                i <= self.sessions@.len(),
                self.sessions@ == before,
                old(self).sessions@ == before,
                ids_unique(before),
                p == addr_is::<T>(addr),
                first_where(before, p) == first_from(before, p, i as int),
            decreases self.sessions.len() - i,
        {
            if self.sessions[i].addr == addr {
                assert(first_where(before, p) == Some(i as int));
                let mut sessions: Vec<Session<T>> = Vec::new();
                std::mem::swap(&mut sessions, &mut self.sessions);
                let removed = sessions.remove(i);
                proof {
                    assert forall|a: int, b: int|
                        0 <= a < sessions@.len() && 0 <= b < sessions@.len() && a != b implies (
                        #[trigger] sessions@[a]).session_id@ != (#[trigger] sessions@[b]).session_id@ by {
                        let a0 = if a < i { a } else { a + 1 };
                        let b0 = if b < i { b } else { b + 1 };
                        assert(sessions@[a] == before[a0] && sessions@[b] == before[b0]);
                    }
                }
                self.sessions = sessions;
                return Some(removed);
            }
            i += 1;
        }
        assert(first_where(before, p) is None);
        None
    }

    /// The first session whose virtual address is `ip`.
    pub fn find_by_virtual_ip(&self, ip: Ipv4Addr) -> (r: Option<&Session<T>>)
        ensures
            match first_where(self.entries(), virtual_ip_is::<T>(ip)) {
                Some(i) => r == Some(&self.entries()[i]),
                None => r is None,
            },
    {
        let ghost p = virtual_ip_is::<T>(ip);
        let mut i: usize = 0;
        while i < self.sessions.len()
            invariant
                i <= self.sessions@.len(),
                p == virtual_ip_is::<T>(ip),
                first_where(self.sessions@, p) == first_from(self.sessions@, p, i as int),
            decreases self.sessions.len() - i,
        {
            if self.sessions[i].virtual_ip == ip {
                assert(first_where(self.sessions@, p) == Some(i as int));
                return Some(&self.sessions[i]);
            }
            i += 1;
        }
        assert(first_where(self.sessions@, p) is None);
        None
    }

    /// The first session whose transport address is `addr`.
    pub fn find_by_addr(&self, addr: PeerAddr) -> (r: Option<&Session<T>>)
        ensures
            match first_where(self.entries(), addr_is::<T>(addr)) {
                Some(i) => r == Some(&self.entries()[i]),
                None => r is None,
            },
    {
        let ghost p = addr_is::<T>(addr);
        let mut i: usize = 0;
        while i < self.sessions.len()
            invariant
                i <= self.sessions@.len(),
                p == addr_is::<T>(addr),
                first_where(self.sessions@, p) == first_from(self.sessions@, p, i as int),
            decreases self.sessions.len() - i,
        {
            if self.sessions[i].addr == addr {
                assert(first_where(self.sessions@, p) == Some(i as int));
                return Some(&self.sessions[i]);
            }
            i += 1;
        }
        assert(first_where(self.sessions@, p) is None);
        None
    }

    /// Forgets the sessions not seen for an hour at `now` (or seen after `now`)
    /// and returns how many were forgotten.
    pub fn retain_fresh(&mut self, now: u128) -> (removed: usize)
        ensures
            final(self).entries() == fresh_sessions(old(self).entries(), now),
            removed == old(self).entries().len() - final(self).entries().len(),
            ids_unique(final(self).entries()),
    {
        proof {
            use_type_invariant(&*self);
        }
        let mut old_sessions: Vec<Session<T>> = Vec::new();
        std::mem::swap(&mut old_sessions, &mut self.sessions);
        let ghost before = old_sessions@;
        let n = old_sessions.len();
        let mut kept: Vec<Session<T>> = Vec::new();
        let mut rev: Vec<Session<T>> = Vec::new();
        let ghost mut taken: Seq<Session<T>> = Seq::empty();
        while old_sessions.len() > 0
            invariant
                old_sessions@ == before.take(old_sessions@.len() as int),
                before.len() == n,
                old_sessions@.len() <= n,
                rev@ == before.skip(old_sessions@.len() as int).reverse(),
            decreases old_sessions.len(),
        {
            let s = old_sessions.pop().unwrap();
            assert(before.skip(old_sessions@.len() as int) =~= seq![s] + before.skip(old_sessions@.len() + 1int));
            rev.push(s);
            assert(rev@ =~= before.skip(old_sessions@.len() as int).reverse());
        }
        assert(before.skip(0) =~= before);
        let mut i: usize = 0;
        while rev.len() > 0
            invariant
                i + rev@.len() == n,
                before.len() == n,
                rev@ == before.skip(i as int).reverse(),
                kept@ == fresh_sessions(before.take(i as int), now),
                ids_unique(before),
                kept@.len() <= i,
                forall|a: int|
                    0 <= a < kept@.len() ==> exists|b: int|
                        0 <= b < i && #[trigger] kept@[a] == before[b],
            decreases rev.len(),
        {
            let s = rev.pop().unwrap();
            assert(s == before[i as int]);
            assert(before.take(i + 1).drop_last() =~= before.take(i as int));
            if s.last_seen <= now && now - s.last_seen < 3_600_000_000_000u128 {
                kept.push(s);
            }
            i += 1;
            assert(rev@ =~= before.skip(i as int).reverse());
        }
        assert(before.take(n as int) =~= before);
        proof {
            lemma_fresh_unique(before, now);
        }
        let removed = n - kept.len();
        self.sessions = kept;
        removed
    }
}

/// With unique ids, the session at position `i` is the one found by its id.
pub proof fn lemma_position_unique<T>(s: Seq<Session<T>>, i: int)
    requires
        ids_unique(s),
        0 <= i < s.len(),
    ensures
        position_of_id(s, s[i].session_id@) == Some(i),
{
    let id = s[i].session_id@;
    assert(s[i].session_id@ == id);
    let j = choose|j: int| 0 <= j < s.len() && (#[trigger] s[j]).session_id@ == id;
    assert(s[j].session_id@ == id);
}

/// An id that no session has is not found.
proof fn lemma_position_absent<T>(s: Seq<Session<T>>, id: Seq<char>, i: int)
    requires
        position_of_id(s, id) is None,
        0 <= i < s.len(),
    ensures
        s[i].session_id@ != id,
{
    if s[i].session_id@ == id {
        assert(exists|k: int| 0 <= k < s.len() && (#[trigger] s[k]).session_id@ == id);
    }
}

/// A found position holds a session with that id.
proof fn lemma_position_found<T>(s: Seq<Session<T>>, id: Seq<char>)
    ensures
        match position_of_id(s, id) {
            Some(i) => 0 <= i < s.len() && s[i].session_id@ == id,
            None => true,
        },
{
}

/// Storing a session is a map update: afterwards the session is found by its
/// id, every other id finds what it found before, and ids stay unique.
pub proof fn lemma_with_session_map<T>(s: Seq<Session<T>>, x: Session<T>)
    requires
        ids_unique(s),
    ensures
        ids_unique(with_session(s, x)),
        by_id(with_session(s, x)) == by_id(s).insert(x.session_id@, x),
{
    let t = with_session(s, x);
    let xid = x.session_id@;
    lemma_position_found(s, xid);
    match position_of_id(s, xid) {
        Some(i) => {
            assert forall|a: int, b: int|
                0 <= a < t.len() && 0 <= b < t.len() && a != b implies (#[trigger] t[a]).session_id@
                    != (#[trigger] t[b]).session_id@ by {
                assert(s[a].session_id@ != s[b].session_id@);
            }
            assert forall|id: Seq<char>| #[trigger] position_of_id(t, id) == position_of_id(s, id) by {
                lemma_position_found(s, id);
                lemma_position_found(t, id);
                if let Some(j) = position_of_id(s, id) {
                    assert(t[j].session_id@ == id);
                    lemma_position_unique(t, j);
                } else if let Some(j) = position_of_id(t, id) {
                    assert(s[j].session_id@ == id);
                    lemma_position_unique(s, j);
                }
            }
            assert(by_id(t) =~= by_id(s).insert(xid, x));
        },
        None => {
            assert forall|a: int, b: int|
                0 <= a < t.len() && 0 <= b < t.len() && a != b implies (#[trigger] t[a]).session_id@
                    != (#[trigger] t[b]).session_id@ by {
                if a == s.len() {
                    lemma_position_absent(s, xid, b);
                } else if b == s.len() {
                    lemma_position_absent(s, xid, a);
                } else {
                    assert(s[a].session_id@ != s[b].session_id@);
                }
            }
            lemma_position_unique(t, s.len() as int);
            assert forall|id: Seq<char>| id != xid implies #[trigger] position_of_id(t, id)
                == position_of_id(s, id) by {
                lemma_position_found(s, id);
                lemma_position_found(t, id);
                if let Some(j) = position_of_id(s, id) {
                    assert(t[j].session_id@ == id);
                    lemma_position_unique(t, j);
                } else if let Some(j) = position_of_id(t, id) {
                    assert(j < s.len());
                    assert(s[j].session_id@ == id);
                    lemma_position_unique(s, j);
                }
            }
            assert(by_id(t) =~= by_id(s).insert(xid, x));
        },
    }
}

/// Forgetting the session at position `i` is a map removal: its id is no
/// longer found, every other id finds what it found before, and ids stay
/// unique.
pub proof fn lemma_remove_map<T>(s: Seq<Session<T>>, i: int)
    requires
        ids_unique(s),
        0 <= i < s.len(),
    ensures
        ids_unique(s.remove(i)),
        by_id(s.remove(i)) == by_id(s).remove(s[i].session_id@),
{
    let t = s.remove(i);
    let xid = s[i].session_id@;
    assert forall|a: int, b: int|
        0 <= a < t.len() && 0 <= b < t.len() && a != b implies (#[trigger] t[a]).session_id@
            != (#[trigger] t[b]).session_id@ by {
        let a0 = if a < i { a } else { a + 1 };
        let b0 = if b < i { b } else { b + 1 };
        assert(t[a] == s[a0] && t[b] == s[b0]);
        assert(s[a0].session_id@ != s[b0].session_id@);
    }
    assert forall|id: Seq<char>| #[trigger] by_id(t).dom().contains(id) <==> by_id(s).remove(
        xid,
    ).dom().contains(id) by {
        lemma_position_found(s, id);
        lemma_position_found(t, id);
        if let Some(j) = position_of_id(t, id) {
            let j0 = if j < i { j } else { j + 1 };
            assert(t[j] == s[j0]);
            lemma_position_unique(s, j0);
            if id == xid {
                lemma_position_unique(s, i);
            }
        } else if let Some(j) = position_of_id(s, id) {
            if j != i {
                let k = if j < i { j } else { j - 1 };
                assert(t[k] == s[j]);
                lemma_position_unique(t, k);
            }
        }
    }
    assert forall|id: Seq<char>| #[trigger] by_id(t).dom().contains(id) implies by_id(t)[id]
        == by_id(s)[id] by {
        lemma_position_found(t, id);
        let j = position_of_id(t, id)->0;
        let j0 = if j < i { j } else { j + 1 };
        assert(t[j] == s[j0]);
        lemma_position_unique(s, j0);
    }
    assert(by_id(t) =~= by_id(s).remove(xid));
}

/// The sessions kept at `now` are exactly the fresh ones.
pub proof fn lemma_fresh_members<T>(s: Seq<Session<T>>, now: u128, x: Session<T>)
    ensures
        fresh_sessions(s, now).contains(x) <==> s.contains(x) && is_fresh(x, now),
    decreases s.len(),
{
    if s.len() > 0 {
        let d = s.drop_last();
        lemma_fresh_members(d, now, x);
        assert(s =~= d.push(s.last()));
        if s.contains(x) && x != s.last() {
            let k = choose|k: int| 0 <= k < s.len() && s[k] == x;
            assert(d[k] == x);
        }
        if d.contains(x) {
            let k = choose|k: int| 0 <= k < d.len() && d[k] == x;
            assert(s[k] == x);
        }
        let rest = fresh_sessions(d, now);
        if is_fresh(s.last(), now) {
            if rest.contains(x) {
                let k = choose|k: int| 0 <= k < rest.len() && rest[k] == x;
                assert(rest.push(s.last())[k] == x);
            }
            if x == s.last() {
                assert(rest.push(s.last())[rest.len() as int] == x);
            }
            if rest.push(s.last()).contains(x) && x != s.last() {
                let k = choose|k: int| 0 <= k < rest.len() + 1 && rest.push(s.last())[k] == x;
                assert(rest[k] == x);
            }
        }
    }
}

/// Keeping only the fresh sessions keeps ids unique.
proof fn lemma_fresh_unique<T>(s: Seq<Session<T>>, now: u128)
    requires
        ids_unique(s),
    ensures
        ids_unique(fresh_sessions(s, now)),
        fresh_sessions(s, now).len() <= s.len(),
        forall|a: int|
            0 <= a < fresh_sessions(s, now).len() ==> exists|b: int|
                0 <= b < s.len() && #[trigger] fresh_sessions(s, now)[a] == s[b],
    decreases s.len(),
{
    if s.len() > 0 {
        let d = s.drop_last();
        assert(ids_unique(d)) by {
            assert forall|i: int, j: int|
                0 <= i < d.len() && 0 <= j < d.len() && i != j implies (#[trigger] d[i]).session_id@
                    != (#[trigger] d[j]).session_id@ by {
                assert(d[i] == s[i] && d[j] == s[j]);
            }
        }
        lemma_fresh_unique(d, now);
        let rest = fresh_sessions(d, now);
        let f = fresh_sessions(s, now);
        assert forall|a: int| 0 <= a < f.len() implies exists|b: int|
            0 <= b < s.len() && #[trigger] f[a] == s[b] by {
            if a < rest.len() {
                let b = choose|b: int| 0 <= b < d.len() && #[trigger] rest[a] == d[b];
                assert(f[a] == s[b]);
            } else {
                assert(f[a] == s[s.len() - 1]);
            }
        }
        if is_fresh(s.last(), now) {
            assert forall|i: int, j: int|
                0 <= i < f.len() && 0 <= j < f.len() && i != j implies (#[trigger] f[i]).session_id@
                    != (#[trigger] f[j]).session_id@ by {
                if i < rest.len() && j < rest.len() {
                    assert(f[i] == rest[i] && f[j] == rest[j]);
                } else if i < rest.len() {
                    let b = choose|b: int| 0 <= b < d.len() && #[trigger] rest[i] == d[b];
                    assert(f[i] == s[b]);
                    assert(f[j] == s[s.len() - 1]);
                } else {
                    let b = choose|b: int| 0 <= b < d.len() && #[trigger] rest[j] == d[b];
                    assert(f[j] == s[b]);
                    assert(f[i] == s[s.len() - 1]);
                }
            }
        }
    }
}

/// The search from position `k` stops at the first session at or after `k`
/// for which `p` holds, and finds none only where `p` holds of none of them.
proof fn lemma_first_from_found<T>(s: Seq<Session<T>>, p: spec_fn(Session<T>) -> bool, k: int)
    requires
        0 <= k,
    ensures
        match first_from(s, p, k) {
            Some(i) => k <= i < s.len() && p(s[i]) && forall|j: int| k <= j < i ==> !p(#[trigger] s[j]),
            None => forall|j: int| k <= j < s.len() ==> !p(#[trigger] s[j]),
        },
    decreases s.len() - k,
{
    if k < s.len() && !p(s[k]) {
        lemma_first_from_found(s, p, k + 1);
    }
}

/// A client is found, and forgotten on disconnect, only by its whole
/// transport address: the session picked for `addr` has that address, IP and
/// port alike, every session before it has another address, and none is
/// picked only where no session has that address.
pub proof fn lemma_addr_lookup_is_exact<T>(s: Seq<Session<T>>, addr: PeerAddr)
    ensures
        match first_where(s, addr_is::<T>(addr)) {
            Some(i) => 0 <= i < s.len() && s[i].addr == addr && forall|j: int|
                0 <= j < i ==> (#[trigger] s[j]).addr != addr,
            None => forall|j: int| 0 <= j < s.len() ==> (#[trigger] s[j]).addr != addr,
        },
{
    lemma_first_from_found(s, addr_is::<T>(addr), 0);
}

/// Forgetting the client at `addr` keeps every session at another address,
/// such as one at the same IP with another port, in its order.
pub proof fn lemma_disconnect_keeps_other_addresses<T>(s: Seq<Session<T>>, addr: PeerAddr, x: Session<T>)
    requires
        s.contains(x),
        x.addr != addr,
    ensures
        match first_where(s, addr_is::<T>(addr)) {
            Some(i) => s.remove(i).contains(x),
            None => s.contains(x),
        },
{
    lemma_first_from_found(s, addr_is::<T>(addr), 0);
    if let Some(i) = first_where(s, addr_is::<T>(addr)) {
        let k = choose|k: int| 0 <= k < s.len() && s[k] == x;
        assert(k != i);
        if k < i {
            assert(s.remove(i)[k] == x);
        } else {
            assert(s.remove(i)[k - 1] == x);
        }
    }
}

/// A packet is routed only to a session whose tunnel address is the packet's
/// destination, the first such one, and to none where no session has it.
pub proof fn lemma_virtual_ip_lookup_is_exact<T>(s: Seq<Session<T>>, ip: Ipv4Addr)
    ensures
        match first_where(s, virtual_ip_is::<T>(ip)) {
            Some(i) => 0 <= i < s.len() && s[i].virtual_ip == ip && forall|j: int|
                0 <= j < i ==> (#[trigger] s[j]).virtual_ip != ip,
            None => forall|j: int| 0 <= j < s.len() ==> (#[trigger] s[j]).virtual_ip != ip,
        },
{
    lemma_first_from_found(s, virtual_ip_is::<T>(ip), 0);
}

} // verus!
