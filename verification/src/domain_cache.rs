//! Domain names learned from DNS answers, kept per IPv4 address until
//! their time to live runs out.

use vstd::prelude::*;
use std::collections::HashMap;
use std::time::{Duration, Instant};
use hickory_proto::op::{Message, MessageType};
use hickory_proto::rr::RData;
use crate::decision::instant_now;
use crate::ip::Ipv4Addr;
use crate::packet::{slice_ip_packet, sliced_ip, PacketModel, PacketSummary, TransportModel, TransportSummary};
use crate::text::{string_views, ascii_lower, chars_of, string_of, to_ascii_lower, trim, trim_chars, trim_end_char, trim_end_char_chars};

verus! {

broadcast use vstd::std_specs::vec::group_vec_axioms, vstd::std_specs::hash::group_hash_axioms;

/// A domain name and the time (in nanoseconds) at which it expires.
#[derive(Debug, Clone)]
pub struct DomainEntry {
    pub domain: String,
    pub expires_at: u128,
}

/// A cached name as a pair of the name and its expiry time.
pub type EntryModel = (Seq<char>, u128);

/// The models of a list of entries.
pub open spec fn entry_models(v: Seq<DomainEntry>) -> Seq<EntryModel> {
    v.map_values(|e: DomainEntry| (e.domain@, e.expires_at))
}

/// A domain name as the cache keeps it: trimmed, without trailing dots, in
/// lowercase; `None` when nothing is left.
pub open spec fn normalized_domain(s: Seq<char>) -> Option<Seq<char>> {
    let d = ascii_lower(trim_end_char(trim(s), '.'));
    if d.len() == 0 {
        None
    } else {
        Some(d)
    }
}

/// The position of the first entry for domain `d`.
pub open spec fn first_with_domain(list: Seq<EntryModel>, d: Seq<char>) -> Option<int> {
    if exists|i: int| 0 <= i < list.len() && (#[trigger] list[i]).0 == d {
        Some(
            choose|i: int|
                0 <= i < list.len() && (#[trigger] list[i]).0 == d && forall|j: int|
                    0 <= j < i ==> (#[trigger] list[j]).0 != d,
        )
    } else {
        None
    }
}

/// The names known for an address.
pub open spec fn names_of(m: Map<u32, Seq<EntryModel>>, ip: u32) -> Seq<EntryModel> {
    if m.contains_key(ip) {
        m[ip]
    } else {
        Seq::empty()
    }
}

/// The cache after learning that `ip` is known as `domain` for `ttl` nanoseconds
/// from `now`: a name already known for the address gets the new expiry, another
/// name is added at the end; a zero time to live or an empty name change nothing.
pub open spec fn cache_insert(
    m: Map<u32, Seq<EntryModel>>,
    ip: u32,
    domain: Seq<char>,
    ttl: u128,
    now: u128,
) -> Map<u32, Seq<EntryModel>> {
    match normalized_domain(domain) {
        None => m,
        Some(d) => if ttl == 0 {
            m
        } else {
            let list = names_of(m, ip);
            let exp = (now + ttl) as u128;
            match first_with_domain(list, d) {
                Some(i) => m.insert(ip, list.update(i, (d, exp))),
                None => m.insert(ip, list.push((d, exp))),
            }
        },
    }
}

/// The entries that have not expired at `now`, in order.
pub open spec fn unexpired(list: Seq<EntryModel>, now: u128) -> Seq<EntryModel>
    decreases list.len(),
{
    if list.len() == 0 {
        list
    } else {
        let rest = unexpired(list.drop_last(), now);
        if list.last().1 > now {
            rest.push(list.last())
        } else {
            rest
        }
    }
}

/// The names of entries.
pub open spec fn entry_names(list: Seq<EntryModel>) -> Seq<Seq<char>> {
    list.map_values(|e: EntryModel| e.0)
}

/// The cache after a lookup of `ip` at `now`: expired names are dropped, and an
/// address left without names is forgotten.
pub open spec fn cache_after_lookup(m: Map<u32, Seq<EntryModel>>, ip: u32, now: u128) -> Map<
    u32,
    Seq<EntryModel>,
> {
    if !m.contains_key(ip) {
        m
    } else if unexpired(m[ip], now).len() == 0 {
        m.remove(ip)
    } else {
        m.insert(ip, unexpired(m[ip], now))
    }
}

/// A DNS answer record: its owner name, time to live in seconds, and the
/// address it gives if it is an `A` record.
#[derive(Debug, Clone)]
pub struct DnsAnswer {
    pub name: String,
    pub ttl: u32,
    pub a: Option<u32>,
}

/// A DNS message: whether it is a response, and its answer records.
#[derive(Debug, Clone)]
pub struct DnsMessage {
    pub is_response: bool,
    pub answers: Vec<DnsAnswer>,
}

/// A DNS answer record as a mathematical value.
pub type DnsAnswerModel = (Seq<char>, u32, Option<u32>);

/// The models of answer records.
pub open spec fn answer_models(v: Seq<DnsAnswer>) -> Seq<DnsAnswerModel> {
    v.map_values(|a: DnsAnswer| (a.name@, a.ttl, a.a))
}

/// What `hickory_proto::op::Message::from_vec` reads from a DNS payload: whether
/// it is a response, and the answer records.
pub uninterp spec fn dns_decode(payload: Seq<u8>) -> Option<(bool, Seq<DnsAnswerModel>)>;

/// Calls `hickory_proto::op::Message::from_vec`, and takes the message type and,
/// of each answer record, the owner name (`Name::to_utf8`), the time to live and
/// the address of an `A` record. The result is named by `dns_decode`.
#[verifier::external_body]
fn decode_dns(payload: &[u8]) -> (r: Option<DnsMessage>)
    ensures
        match r {
            Some(m) => dns_decode(payload@) == Some((m.is_response, answer_models(m.answers@))),
            None => dns_decode(payload@) is None,
        },
{
    let m = Message::from_vec(payload).ok()?;
    let answers = m.answers.iter().map(|r| DnsAnswer {
        name: r.name.to_utf8(),
        ttl: r.ttl,
        a: if let RData::A(a) = &r.data { Some(u32::from(a.0)) } else { None },
    }).collect();
    Some(DnsMessage { is_response: m.metadata.message_type == MessageType::Response, answers })
}

/// The largest number of nanoseconds a `Duration` holds.
pub open spec fn max_duration_nanos() -> u128 {
    (18_446_744_073_709_551_615u128 * 1_000_000_000u128 + 999_999_999u128) as u128
}

/// Calls `std::time::Duration::as_nanos`. A `Duration` holds at most `u64::MAX`
/// seconds and fewer than a billion nanoseconds besides; nothing else is stated.
#[verifier::external_body]
fn duration_nanos(d: Duration) -> (n: u128)
    ensures
        n <= max_duration_nanos(),
{
    d.as_nanos()
}

/// Calls `std::time::Instant::elapsed`: the time that has passed on the
/// monotonic clock since `since`. Nothing is stated of it: the time read is
/// the machine's.
#[verifier::external_body]
fn elapsed_since(since: &Instant) -> Duration {
    since.elapsed()
}

/// The nanoseconds since the cache was made.
fn cache_clock(epoch: &Instant) -> (n: u128)
    ensures
        n <= max_duration_nanos(),
{
    duration_nanos(elapsed_since(epoch))
}

/// The cache after observing the answer records `answers` at `now`: each `A`
/// record teaches its address the record's owner name.
pub open spec fn apply_answers(
    m: Map<u32, Seq<EntryModel>>,
    answers: Seq<DnsAnswerModel>,
    now: u128,
) -> Map<u32, Seq<EntryModel>>
    decreases answers.len(),
{
    if answers.len() == 0 {
        m
    } else {
        let before = apply_answers(m, answers.drop_last(), now);
        let (name, ttl, a) = answers.last();
        match a {
            Some(addr) => cache_insert(before, addr, name, ((ttl as u128) * 1_000_000_000u128) as u128, now),
            None => before,
        }
    }
}

/// The payload of a UDP datagram sent from port 53, as read from a packet.
pub open spec fn dns_payload_of(packet: Seq<u8>) -> Option<Seq<u8>> {
    match sliced_ip(packet) {
        Some(m) => dns_payload_of_model(m),
        None => None,
    }
}

/// The cache after observing the IP packet `packet` at `now`.
pub open spec fn cache_after_packet(
    m: Map<u32, Seq<EntryModel>>,
    packet: Seq<u8>,
    now: u128,
) -> Map<u32, Seq<EntryModel>> {
    match dns_payload_of(packet) {
        Some(payload) => match dns_decode(payload) {
            Some((is_response, answers)) => if is_response {
                apply_answers(m, answers, now)
            } else {
                m
            },
            None => m,
        },
        None => m,
    }
}

/// The latest time at which an observation may happen without its expiry
/// times running out of range.
pub open spec fn latest_now() -> u128 {
    (u128::MAX - 5_000_000_000_000_000_000u128) as u128
}

/// Domain names of addresses, learned from DNS responses. Times are counted
/// in nanoseconds on the monotonic clock from the moment the cache was made.
#[derive(Debug)]
pub struct DomainCache {
    entries: HashMap<u32, Vec<DomainEntry>>,
    epoch: Instant,
}

impl View for DomainCache {
    type V = Map<u32, Seq<EntryModel>>;

    closed spec fn view(&self) -> Map<u32, Seq<EntryModel>> {
        Map::new(
            |k: u32| self.entries@.contains_key(k),
            |k: u32| entry_models(self.entries@[k]@),
        )
    }
}

impl Default for DomainCache {
    /// An empty cache.
    fn default() -> (c: DomainCache)
        ensures
            c@ == Map::<u32, Seq<EntryModel>>::empty(),
    {
        DomainCache::new()
    }
}

/// The domain name as the cache keeps it, if anything is left of it.
pub fn normalize_domain(value: &str) -> (r: Option<String>)
    ensures
        match r {
            Some(d) => normalized_domain(value@) == Some(d@),
            None => normalized_domain(value@) is None,
        },
{
    let c = chars_of(value);
    let t = trim_chars(&c);
    let e = trim_end_char_chars(&t, '.');
    let d = to_ascii_lower(&e);
    if d.len() == 0 {
        None
    } else {
        Some(string_of(&d))
    }
}

impl DomainCache {
    /// An empty cache.
    pub fn new() -> (c: DomainCache)
        ensures
            c@ == Map::<u32, Seq<EntryModel>>::empty(),
    {
        let c = DomainCache { entries: HashMap::new(), epoch: instant_now() };
        assert(c@ =~= Map::<u32, Seq<EntryModel>>::empty());
        c
    }

    /// Learns at time `now` (in nanoseconds) that `ip` is known as `domain` for
    /// `ttl_nanos` nanoseconds.
    pub fn insert_at(&mut self, ip: Ipv4Addr, domain: &str, ttl_nanos: u128, now: u128)
        requires
            now + ttl_nanos <= u128::MAX,
        ensures
            final(self)@ == cache_insert(old(self)@, ip.bits, domain@, ttl_nanos, now),
    {
        if ttl_nanos == 0 {
            return;
        }
        let ds = match normalize_domain(domain) {
            Some(d) => d,
            None => return,
        };
        let ghost d = ds@;
        let expires_at = now + ttl_nanos;
        let ghost m0 = self@;
        let ghost list0 = names_of(m0, ip.bits);
        let mut list = match self.entries.remove(&ip.bits) {
            Some(v) => v,
            None => Vec::new(),
        };
        assert(entry_models(list@) == list0);
        let i = find_domain(&list, &ds);
        let ghost new_entry = (d, expires_at);
        if i < list.len() {
            assert(list0[i as int].0 == d);
            assert(first_with_domain(list0, d) == Some(i as int));
            list.set(i, DomainEntry { domain: ds, expires_at });
            assert(entry_models(list@) =~= list0.update(i as int, new_entry));
        } else {
            assert(first_with_domain(list0, d) is None);
            list.push(DomainEntry { domain: ds, expires_at });
            assert(entry_models(list@) =~= list0.push(new_entry));
        }
        self.entries.insert(ip.bits, list);
        assert(self@ =~= cache_insert(m0, ip.bits, domain@, ttl_nanos, now));
    }

    /// Learns that `ip` is known as `domain` for `ttl_nanos` nanoseconds (at
    /// most what a `Duration` holds), from now on.
    pub fn insert(&mut self, ip: Ipv4Addr, domain: &str, ttl_nanos: u128)
        requires
            ttl_nanos <= max_duration_nanos(),
        ensures
            exists|now: u128|
                now <= max_duration_nanos() && final(self)@ == cache_insert(
                    old(self)@,
                    ip.bits,
                    domain@,
                    ttl_nanos,
                    now,
                ),
    {
        let now = cache_clock(&self.epoch);
        self.insert_at(ip, domain, ttl_nanos, now);
    }

    /// The cache's clock: nanoseconds on the monotonic clock since the cache
    /// was made. The reading is the machine's; only its bound is stated.
    pub fn now(&self) -> (n: u128)
        ensures
            n <= max_duration_nanos(),
    {
        cache_clock(&self.epoch)
    }

    /// The names of `ip` that have not expired at `now`, in the order learned;
    /// expired names are dropped.
    pub fn lookup_at(&mut self, ip: Ipv4Addr, now: u128) -> (names: Vec<String>)
        ensures
            string_views(names@) == entry_names(unexpired(names_of(old(self)@, ip.bits), now)),
            final(self)@ == cache_after_lookup(old(self)@, ip.bits, now),
    {
        let ghost m0 = self@;
        let list = match self.entries.remove(&ip.bits) {
            Some(v) => v,
            None => {
                assert(self@ =~= m0);
                let v: Vec<String> = Vec::new();
                assert(string_views(v@) =~= entry_names(unexpired(Seq::empty(), now)));
                return v;
            },
        };
        let ghost list0 = entry_models(list@);
        assert(list0 == m0[ip.bits]);
        let mut kept: Vec<DomainEntry> = Vec::new();
        let mut names: Vec<String> = Vec::new();
        let mut i: usize = 0;
        assert(list0.take(0) =~= Seq::<EntryModel>::empty());
        while i < list.len()
            invariant
                i <= list@.len(),
                list0 == entry_models(list@),
                entry_models(kept@) == unexpired(list0.take(i as int), now),
                string_views(names@) == entry_names(entry_models(kept@)),
            decreases list.len() - i,
        {
            assert(list0.take(i + 1).drop_last() =~= list0.take(i as int));
            let e = &list[i];
            if e.expires_at > now {
                let ghost before = entry_models(kept@);
                let ghost names_before = string_views(names@);
                assert(list0[i as int] == (e.domain@, e.expires_at));
                let n1 = e.domain.clone();
                let n2 = e.domain.clone();
                assert(n1@ == e.domain@ && n2@ == e.domain@);
                kept.push(DomainEntry { domain: n1, expires_at: e.expires_at });
                names.push(n2);
                assert(string_views(names@) =~= names_before.push(e.domain@));
                assert(entry_models(kept@) =~= before.push(list0[i as int]));
                assert(string_views(names@) =~= entry_names(entry_models(kept@)));
            }
            i += 1;
        }
        assert(list0.take(list@.len() as int) =~= list0);
        if kept.len() > 0 {
            self.entries.insert(ip.bits, kept);
        }
        assert(self@ =~= cache_after_lookup(m0, ip.bits, now));
        names
    }

    /// The names of `ip` that have not expired yet; expired names are dropped.
    pub fn lookup(&mut self, ip: Ipv4Addr) -> (names: Vec<String>)
        ensures
            exists|now: u128|
                string_views(names@) == entry_names(
                    unexpired(names_of(old(self)@, ip.bits), now),
                ) && final(self)@ == cache_after_lookup(old(self)@, ip.bits, now),
    {
        let now = cache_clock(&self.epoch);
        self.lookup_at(ip, now)
    }

    /// Learns from the answers of a DNS response observed at `now`; other
    /// messages teach nothing.
    pub fn observe_message_at(&mut self, message: &DnsMessage, now: u128)
        requires
            now <= latest_now(),
        ensures
            final(self)@ == (if message.is_response {
                apply_answers(old(self)@, answer_models(message.answers@), now)
            } else {
                old(self)@
            }),
    {
        if !message.is_response {
            return;
        }
        let ghost m0 = self@;
        let ghost all = answer_models(message.answers@);
        let mut i: usize = 0;
        while i < message.answers.len()
            invariant
                i <= message.answers@.len(),
                all == answer_models(message.answers@),
                now <= latest_now(),
                self@ == apply_answers(m0, all.take(i as int), now),
            decreases message.answers.len() - i,
        {
            assert(all.take(i + 1).drop_last() =~= all.take(i as int));
            let answer = &message.answers[i];
            if let Some(addr) = answer.a {
                let ttl: u128 = (answer.ttl as u128) * 1_000_000_000u128;
                self.insert_at(Ipv4Addr::from_bits(addr), answer.name.as_str(), ttl, now);
            }
            i += 1;
        }
        assert(all.take(message.answers@.len() as int) =~= all);
    }

    /// Learns from the IP packet `packet`, observed at `now`, if it carries a DNS
    /// response from port 53.
    pub fn observe_packet_at(&mut self, packet: &[u8], now: u128)
        requires
            now <= latest_now(),
        ensures
            final(self)@ == cache_after_packet(old(self)@, packet@, now),
    {
        let payload = match dns_response_payload(packet) {
            Some(p) => p,
            None => return,
        };
        match decode_dns(&payload) {
            Some(message) => self.observe_message_at(&message, now),
            None => {},
        }
    }

    /// Learns from the IP packet `packet` if it carries a DNS response from port 53.
    pub fn observe_packet(&mut self, packet: &[u8])
        ensures
            exists|now: u128| final(self)@ == cache_after_packet(old(self)@, packet@, now),
    {
        let now = cache_clock(&self.epoch);
        assert(now <= latest_now());
        self.observe_packet_at(packet, now);
    }
}

/// A lookup keeps exactly the entries that have not expired: an entry is
/// kept at `now` if and only if it expires after `now`.
pub proof fn lemma_unexpired_members(list: Seq<EntryModel>, now: u128, e: EntryModel)
    ensures
        unexpired(list, now).contains(e) <==> list.contains(e) && e.1 > now,
    decreases list.len(),
{
    if list.len() > 0 {
        let d = list.drop_last();
        lemma_unexpired_members(d, now, e);
        assert(list =~= d.push(list.last()));
        if list.contains(e) && e != list.last() {
            let k = choose|k: int| 0 <= k < list.len() && list[k] == e;
            assert(d[k] == e);
        }
        if d.contains(e) {
            let k = choose|k: int| 0 <= k < d.len() && d[k] == e;
            assert(list[k] == e);
        }
        let rest = unexpired(d, now);
        if list.last().1 > now {
            if rest.contains(e) {
                let k = choose|k: int| 0 <= k < rest.len() && rest[k] == e;
                assert(rest.push(list.last())[k] == e);
            }
            if e == list.last() {
                assert(rest.push(list.last())[rest.len() as int] == e);
            }
            if rest.push(list.last()).contains(e) && e != list.last() {
                let k = choose|k: int| 0 <= k < rest.len() + 1 && rest.push(list.last())[k] == e;
                assert(rest[k] == e);
            }
        }
    }
}

/// The first entry for `d`, if there is one, is an entry for `d`.
proof fn lemma_first_with_domain_found(list: Seq<EntryModel>, d: Seq<char>)
    ensures
        match first_with_domain(list, d) {
            Some(i) => 0 <= i < list.len() && list[i].0 == d,
            None => true,
        },
{
    if exists|i: int| 0 <= i < list.len() && (#[trigger] list[i]).0 == d {
        lemma_first_exists(list, d, 0);
    }
}

/// Among the entries from `k` on there is one for `d`, and none before `k`:
/// then there is a first one.
proof fn lemma_first_exists(list: Seq<EntryModel>, d: Seq<char>, k: int)
    requires
        0 <= k <= list.len(),
        forall|j: int| 0 <= j < k ==> (#[trigger] list[j]).0 != d,
        exists|i: int| k <= i < list.len() && (#[trigger] list[i]).0 == d,
    ensures
        exists|i: int|
            0 <= i < list.len() && (#[trigger] list[i]).0 == d && forall|j: int|
                0 <= j < i ==> (#[trigger] list[j]).0 != d,
    decreases list.len() - k,
{
    if list[k].0 == d {
        assert(0 <= k < list.len() && list[k].0 == d && forall|j: int| 0 <= j < k ==> (#[trigger] list[j]).0 != d);
    } else {
        lemma_first_exists(list, d, k + 1);
    }
}

/// A name learned for an address is found by every lookup of that address
/// until its time to live has run out.
pub proof fn lemma_learned_name_found(
    m: Map<u32, Seq<EntryModel>>,
    ip: u32,
    domain: Seq<char>,
    ttl: u128,
    now: u128,
    later: u128,
)
    requires
        normalized_domain(domain) is Some,
        ttl > 0,
        now + ttl <= u128::MAX,
        now <= later < now + ttl,
    ensures
        entry_names(unexpired(names_of(cache_insert(m, ip, domain, ttl, now), ip), later)).contains(
            normalized_domain(domain)->0,
        ),
{
    let d = normalized_domain(domain)->0;
    let list = names_of(m, ip);
    let exp = (now + ttl) as u128;
    let after = names_of(cache_insert(m, ip, domain, ttl, now), ip);
    lemma_first_with_domain_found(list, d);
    match first_with_domain(list, d) {
        Some(i) => {
            assert(after == list.update(i, (d, exp)));
            assert(after[i] == (d, exp));
        },
        None => {
            assert(after == list.push((d, exp)));
            assert(after[list.len() as int] == (d, exp));
        },
    }
    assert(after.contains((d, exp)));
    lemma_unexpired_members(after, later, (d, exp));
    let kept = unexpired(after, later);
    let k = choose|k: int| 0 <= k < kept.len() && kept[k] == (d, exp);
    assert(entry_names(kept)[k] == d);
}

/// A zero time to live, or a name with nothing left after trimming and
/// dropping trailing dots, teaches the cache nothing: no address gains an
/// entry, not even an empty one.
pub proof fn lemma_insert_nothing(
    m: Map<u32, Seq<EntryModel>>,
    ip: u32,
    domain: Seq<char>,
    ttl: u128,
    now: u128,
)
    requires
        ttl == 0 || normalized_domain(domain) is None,
    ensures
        cache_insert(m, ip, domain, ttl, now) == m,
{
}

/// Learning a name for one address leaves the names of every other address
/// as they were.
pub proof fn lemma_insert_other_address(
    m: Map<u32, Seq<EntryModel>>,
    ip: u32,
    other: u32,
    domain: Seq<char>,
    ttl: u128,
    now: u128,
)
    requires
        other != ip,
    ensures
        names_of(cache_insert(m, ip, domain, ttl, now), other) == names_of(m, other),
{
}

/// One insertion: the name, its time to live and the time of insertion, in
/// nanoseconds.
pub type InsertOp = (Seq<char>, u128, u128);

/// The cache after the insertions `ops` for `ip`, in order.
pub open spec fn apply_inserts(m: Map<u32, Seq<EntryModel>>, ip: u32, ops: Seq<InsertOp>) -> Map<
    u32,
    Seq<EntryModel>,
>
    decreases ops.len(),
{
    if ops.len() == 0 {
        m
    } else {
        let o = ops.last();
        cache_insert(apply_inserts(m, ip, ops.drop_last()), ip, o.0, o.1, o.2)
    }
}

/// The names the insertions `ops` teach, as the cache keeps them: normalized,
/// each once, in the order first inserted; names with nothing left after
/// normalizing are skipped.
pub open spec fn learned_names(ops: Seq<InsertOp>) -> Seq<Seq<char>>
    decreases ops.len(),
{
    if ops.len() == 0 {
        Seq::empty()
    } else {
        let prev = learned_names(ops.drop_last());
        match normalized_domain(ops.last().0) {
            None => prev,
            Some(n) => if prev.contains(n) {
                prev
            } else {
                prev.push(n)
            },
        }
    }
}

/// A list whose entries all expire after `now` keeps them all at `now`.
proof fn lemma_unexpired_all(list: Seq<EntryModel>, now: u128)
    requires
        forall|k: int| 0 <= k < list.len() ==> (#[trigger] list[k]).1 > now,
    ensures
        unexpired(list, now) == list,
    decreases list.len(),
{
    if list.len() > 0 {
        let d = list.drop_last();
        assert forall|k: int| 0 <= k < d.len() implies (#[trigger] d[k]).1 > now by {
            assert(d[k] == list[k]);
        }
        lemma_unexpired_all(d, now);
        assert(d.push(list.last()) =~= list);
    }
}

/// The entries for `ip` after insertions into a cache that had none for it:
/// their names are the learned names, and each expires after `later` when
/// every insertion lives past `later`.
proof fn lemma_inserts_entries(m: Map<u32, Seq<EntryModel>>, ip: u32, ops: Seq<InsertOp>, later: u128)
    requires
        names_of(m, ip).len() == 0,
        forall|k: int|
            0 <= k < ops.len() ==> (#[trigger] ops[k]).1 > 0 && ops[k].2 + ops[k].1 <= u128::MAX
                && later < ops[k].2 + ops[k].1,
    ensures
        entry_names(names_of(apply_inserts(m, ip, ops), ip)) == learned_names(ops),
        forall|k: int|
            0 <= k < names_of(apply_inserts(m, ip, ops), ip).len() ==> (#[trigger] names_of(
                apply_inserts(m, ip, ops),
                ip,
            )[k]).1 > later,
    decreases ops.len(),
{
    if ops.len() == 0 {
        assert(entry_names(names_of(m, ip)) =~= Seq::<Seq<char>>::empty());
    } else {
        let prev_ops = ops.drop_last();
        assert forall|k: int| 0 <= k < prev_ops.len() implies (#[trigger] prev_ops[k]).1 > 0
            && prev_ops[k].2 + prev_ops[k].1 <= u128::MAX && later < prev_ops[k].2 + prev_ops[k].1 by {
            assert(prev_ops[k] == ops[k]);
        }
        lemma_inserts_entries(m, ip, prev_ops, later);
        let before = apply_inserts(m, ip, prev_ops);
        let list = names_of(before, ip);
        let o = ops.last();
        assert(o == ops[ops.len() - 1]);
        let prev = learned_names(prev_ops);
        lemma_names_after_insert(before, ip, o.0, o.1, o.2);
        assert(names_of(apply_inserts(m, ip, ops), ip) == list_after_insert(list, o.0, o.1, o.2));
        lemma_insert_step(list, prev, o.0, o.1, o.2, later);
    }
}

/// The entries of an address after learning `d` for `ttl` nanoseconds at
/// `now`, as `cache_insert` leaves them.
pub open spec fn list_after_insert(list: Seq<EntryModel>, d: Seq<char>, ttl: u128, now: u128) -> Seq<
    EntryModel,
> {
    match normalized_domain(d) {
        None => list,
        Some(n) => if ttl == 0 {
            list
        } else {
            let exp = (now + ttl) as u128;
            match first_with_domain(list, n) {
                Some(i) => list.update(i, (n, exp)),
                None => list.push((n, exp)),
            }
        },
    }
}

/// What one insertion does to the entries of the address it is for.
proof fn lemma_names_after_insert(
    m: Map<u32, Seq<EntryModel>>,
    ip: u32,
    d: Seq<char>,
    ttl: u128,
    now: u128,
)
    ensures
        names_of(cache_insert(m, ip, d, ttl, now), ip) == list_after_insert(names_of(m, ip), d, ttl, now),
{
}

/// One insertion of a name into a list whose names are `prev`: a known name
/// keeps its place, a new one is added at the end, an empty one teaches
/// nothing; expiries stay after `later` when the new one does.
proof fn lemma_insert_step(
    list: Seq<EntryModel>,
    prev: Seq<Seq<char>>,
    d: Seq<char>,
    ttl: u128,
    now: u128,
    later: u128,
)
    requires
        entry_names(list) == prev,
        forall|k: int| 0 <= k < list.len() ==> (#[trigger] list[k]).1 > later,
        ttl > 0,
        now + ttl <= u128::MAX,
        later < now + ttl,
    ensures
        entry_names(list_after_insert(list, d, ttl, now)) == (match normalized_domain(d) {
            None => prev,
            Some(n) => if prev.contains(n) {
                prev
            } else {
                prev.push(n)
            },
        }),
        forall|k: int|
            0 <= k < list_after_insert(list, d, ttl, now).len() ==> (#[trigger] list_after_insert(
                list,
                d,
                ttl,
                now,
            )[k]).1 > later,
{
    let after = list_after_insert(list, d, ttl, now);
    if let Some(n) = normalized_domain(d) {
        let exp = (now + ttl) as u128;
        lemma_first_with_domain_found(list, n);
        match first_with_domain(list, n) {
            Some(i) => {
                assert(after == list.update(i, (n, exp)));
                assert(entry_names(after) =~= entry_names(list));
                assert(entry_names(list)[i] == n);
                assert(prev.contains(n));
                assert forall|k: int| 0 <= k < after.len() implies (#[trigger] after[k]).1 > later by {
                    if k != i {
                        assert(after[k] == list[k]);
                    }
                }
            },
            None => {
                assert(after == list.push((n, exp)));
                assert(entry_names(after) =~= entry_names(list).push(n));
                assert(!prev.contains(n)) by {
                    if prev.contains(n) {
                        let k = choose|k: int| 0 <= k < prev.len() && prev[k] == n;
                        assert(list[k].0 == n);
                        assert(exists|i: int| 0 <= i < list.len() && (#[trigger] list[i]).0 == n);
                        lemma_first_exists(list, n, 0);
                    }
                }
                assert forall|k: int| 0 <= k < after.len() implies (#[trigger] after[k]).1 > later by {
                    if k < list.len() {
                        assert(after[k] == list[k]);
                    }
                }
            },
        }
    }
}

/// A lookup after insertions for an address the cache held no names for,
/// made while every inserted name still lives, gives the names as the cache
/// keeps them (trimmed, without trailing dots, in lowercase), each once, in
/// the order they were first inserted; a lookup of any other address the
/// cache holds nothing for finds nothing and leaves the cache as it is.
pub proof fn lemma_inserts_then_lookup(
    m: Map<u32, Seq<EntryModel>>,
    ip: u32,
    ops: Seq<InsertOp>,
    later: u128,
    other: u32,
)
    requires
        names_of(m, ip).len() == 0,
        forall|k: int|
            0 <= k < ops.len() ==> (#[trigger] ops[k]).1 > 0 && ops[k].2 + ops[k].1 <= u128::MAX
                && later < ops[k].2 + ops[k].1,
        other != ip,
        !m.contains_key(other),
    ensures
        entry_names(unexpired(names_of(apply_inserts(m, ip, ops), ip), later)) == learned_names(ops),
        entry_names(unexpired(names_of(apply_inserts(m, ip, ops), other), later)).len() == 0,
        cache_after_lookup(apply_inserts(m, ip, ops), other, later) == apply_inserts(m, ip, ops),
{
    lemma_inserts_entries(m, ip, ops, later);
    lemma_unexpired_all(names_of(apply_inserts(m, ip, ops), ip), later);
    lemma_inserts_keep_other(m, ip, ops, other);
    assert(unexpired(Seq::<EntryModel>::empty(), later).len() == 0);
}

/// Insertions for `ip` add no entry for any other address.
proof fn lemma_inserts_keep_other(m: Map<u32, Seq<EntryModel>>, ip: u32, ops: Seq<InsertOp>, other: u32)
    requires
        other != ip,
        !m.contains_key(other),
    ensures
        !apply_inserts(m, ip, ops).contains_key(other),
        names_of(apply_inserts(m, ip, ops), other) == Seq::<EntryModel>::empty(),
    decreases ops.len(),
{
    if ops.len() > 0 {
        lemma_inserts_keep_other(m, ip, ops.drop_last(), other);
    }
}

/// The position of the first entry for the domain `d`, or the length of the
/// list if there is none.
fn find_domain(list: &Vec<DomainEntry>, d: &String) -> (i: usize)
    ensures
        i <= list@.len(),
        i < list@.len() ==> list@[i as int].domain@ == d@,
        forall|j: int| 0 <= j < i ==> (#[trigger] entry_models(list@)[j]).0 != d@,
{
    let mut i: usize = 0;
    while i < list.len()
        invariant
            i <= list@.len(),
            forall|j: int| 0 <= j < i ==> (#[trigger] entry_models(list@)[j]).0 != d@,
        decreases list.len() - i,
    {
        if list[i].domain == *d {
            return i;
        }
        i += 1;
    }
    i
}

/// The payload of a UDP datagram sent from port 53, as read from the headers
/// of a packet.
pub open spec fn dns_payload_of_model(m: PacketModel) -> Option<Seq<u8>> {
    match m.transport {
        TransportModel::Udp(src, _, payload) => if src == 53 {
            Some(payload)
        } else {
            None
        },
        _ => None,
    }
}

/// The payload of the UDP datagram whose headers were read as `summary`, if
/// it was sent from port 53 (where DNS answers come from).
pub fn udp_dns_payload(summary: PacketSummary) -> (r: Option<Vec<u8>>)
    ensures
        match r {
            Some(p) => dns_payload_of_model(summary@) == Some(p@),
            None => dns_payload_of_model(summary@) is None,
        },
{
    match summary.transport {
        TransportSummary::Udp(src, _, payload) => if src == 53 {
            Some(payload)
        } else {
            None
        },
        _ => None,
    }
}

/// The payload of the UDP datagram in `packet`, if it was sent from port 53.
fn dns_response_payload(packet: &[u8]) -> (r: Option<Vec<u8>>)
    ensures
        match r {
            Some(p) => dns_payload_of(packet@) == Some(p@),
            None => dns_payload_of(packet@) is None,
        },
{
    match slice_ip_packet(packet) {
        Some(s) => udp_dns_payload(s),
        None => None,
    }
}

} // verus!
