//! The flow table: every tracked flow and its state, found by the flow's
//! canonical endpoints.
//!
//! The table is the sole owner of the connection states. Every operation
//! takes the table exclusively or shared, so operations on one table happen
//! one after the other, and readers are handed copies.

use vstd::prelude::*;
use std::collections::HashMap;
use crate::address::{Endpoint, Ipv4Address};
use crate::connection::{syn_threshold_reached, warning_due, TcpConnection};
use crate::datagram::TcpDatagram;
use crate::entries::{
    distinct_flows, holds_flow, ingested, is_flow, lacks_flow, latest_after_removal,
    lemma_holds_flow, lemma_lacks_flow, lemma_records, position, recorded, records, state_of,
    tracks, with_flow, without_flow,
};
use crate::flow::{resolve, resolved, Flow};

verus! {

broadcast use vstd::std_specs::hash::group_hash_axioms;

/// The number under which the table files the flow between `a` and `z`:
/// the four parts of its identity side by side, 96 bits in all.
#[verifier::opaque]
spec fn flow_number(a: Endpoint, z: Endpoint) -> nat {
    (a.ip.bits() * 0x1_0000 + (a.port as nat)) * 0x1_0000_0000_0000 + (z.ip.bits() * 0x1_0000 + (
    z.port as nat))
}

spec fn number_of(c: TcpConnection) -> u128 {
    flow_number(c.a_endpoint, c.z_endpoint) as u128
}

proof fn lemma_digits_agree(high1: nat, low1: nat, high2: nat, low2: nat, base: nat)
    requires
        low1 < base,
        low2 < base,
        high1 * base + low1 == high2 * base + low2,
    ensures
        high1 == high2,
        low1 == low2,
{
    if high1 < high2 {
        assert(high2 * base >= (high1 + 1) * base) by (nonlinear_arith)
            requires
                high1 < high2,
        ;
        assert((high1 + 1) * base == high1 * base + base) by (nonlinear_arith);
    } else if high2 < high1 {
        assert(high1 * base >= (high2 + 1) * base) by (nonlinear_arith)
            requires
                high2 < high1,
        ;
        assert((high2 + 1) * base == high2 * base + base) by (nonlinear_arith);
    }
}

proof fn lemma_bits_agree(x: Ipv4Address, y: Ipv4Address)
    requires
        x.bits() == y.bits(),
    ensures
        x == y,
{
    let rest = |ip: Ipv4Address| (ip.third as nat) * 0x100 + (ip.fourth as nat);
    let tail = |ip: Ipv4Address| (ip.second as nat) * 0x1_0000 + rest(ip);
    lemma_digits_agree(x.first as nat, tail(x), y.first as nat, tail(y), 0x100_0000);
    lemma_digits_agree(x.second as nat, rest(x), y.second as nat, rest(y), 0x1_0000);
    lemma_digits_agree(x.third as nat, x.fourth as nat, y.third as nat, y.fourth as nat, 0x100);
}

proof fn lemma_flow_number_fits(a: Endpoint, z: Endpoint)
    ensures
        flow_number(a, z) <= u128::MAX,
        number_of(TcpConnection::fresh(a, z)) == flow_number(a, z),
{
    reveal(flow_number);
    let high = a.ip.bits() * 0x1_0000 + (a.port as nat);
    assert(high < 0x1_0000_0000_0000);
    assert(high * 0x1_0000_0000_0000 <= 0xffff_ffff_ffff * 0x1_0000_0000_0000) by (nonlinear_arith)
        requires
            high <= 0xffff_ffff_ffff,
    ;
}

proof fn lemma_flow_number_injective(a1: Endpoint, z1: Endpoint, a2: Endpoint, z2: Endpoint)
    requires
        flow_number(a1, z1) == flow_number(a2, z2),
    ensures
        a1 == a2,
        z1 == z2,
{
    reveal(flow_number);
    let half = |e: Endpoint| e.ip.bits() * 0x1_0000 + (e.port as nat);
    lemma_digits_agree(half(a1), half(z1), half(a2), half(z2), 0x1_0000_0000_0000);
    lemma_digits_agree(a1.ip.bits(), a1.port as nat, a2.ip.bits(), a2.port as nat, 0x1_0000);
    lemma_digits_agree(z1.ip.bits(), z1.port as nat, z2.ip.bits(), z2.port as nat, 0x1_0000);
    lemma_bits_agree(a1.ip, a2.ip);
    lemma_bits_agree(z1.ip, z2.ip);
}

/// Two entries filed under one number are entries of one flow.
proof fn lemma_same_number(c: TcpConnection, a: Endpoint, z: Endpoint)
    requires
        number_of(c) == flow_number(a, z),
    ensures
        is_flow(c, a, z),
{
    lemma_flow_number_fits(c.a_endpoint, c.z_endpoint);
    lemma_flow_number_fits(a, z);
    lemma_flow_number_injective(c.a_endpoint, c.z_endpoint, a, z);
}

fn flow_key(a: Endpoint, z: Endpoint) -> (k: u128)
    ensures
        k == flow_number(a, z),
{
    proof {
        reveal(flow_number);
        lemma_flow_number_fits(a, z);
    }
    let high: u128 = (a.ip.to_bits() as u128) * 0x1_0000 + (a.port as u128);
    let low: u128 = (z.ip.to_bits() as u128) * 0x1_0000 + (z.port as u128);
    assert(high * 0x1_0000_0000_0000 <= 0xffff_ffff_ffff * 0x1_0000_0000_0000) by (nonlinear_arith)
        requires
            high <= 0xffff_ffff_ffff,
    ;
    high * 0x1_0000_0000_0000 + low
}

/// Whether `index` files every one of `connections` under its flow's
/// number at its place, and nothing else.
spec fn filed(connections: Seq<TcpConnection>, index: Map<u128, usize>) -> bool {
    &&& forall|i: int|
        0 <= i < connections.len() ==> index.contains_key(number_of(#[trigger] connections[i]))
            && index[number_of(connections[i])] == i
    &&& forall|k: u128| #[trigger]
        index.contains_key(k) ==> index[k] < connections.len() && number_of(
            connections[index[k] as int],
        ) == k
}

/// Where every state is filed, no flow has two.
proof fn lemma_filed_distinct(connections: Seq<TcpConnection>, index: Map<u128, usize>)
    requires
        filed(connections, index),
    ensures
        distinct_flows(connections),
{
    assert forall|i: int, j: int| 0 <= i < j < connections.len() implies !is_flow(
        #[trigger] connections[i],
        (#[trigger] connections[j]).a_endpoint,
        connections[j].z_endpoint,
    ) by {
        if is_flow(connections[i], connections[j].a_endpoint, connections[j].z_endpoint) {
            assert(number_of(connections[i]) == number_of(connections[j]));
        }
    }
}

/// A state filed under a flow's number is that flow's, and stands where
/// the flow is found; a flow under whose number nothing is filed has no state.
proof fn lemma_filed_lookup(
    connections: Seq<TcpConnection>,
    index: Map<u128, usize>,
    a: Endpoint,
    z: Endpoint,
)
    requires
        filed(connections, index),
    ensures
        index.contains_key(flow_number(a, z) as u128) <==> tracks(connections, a, z),
        tracks(connections, a, z) ==> {
            let at = index[flow_number(a, z) as u128] as int;
            position(connections, a, z) == at && is_flow(connections[at], a, z)
        },
{
    let k = flow_number(a, z) as u128;
    lemma_flow_number_fits(a, z);
    lemma_filed_distinct(connections, index);
    if index.contains_key(k) {
        let i = index[k] as int;
        lemma_same_number(connections[i], a, z);
        assert(is_flow(connections[i], a, z));
        let p = position(connections, a, z);
        if p != i {
            assert(is_flow(connections[p], a, z));
        }
    } else if tracks(connections, a, z) {
        let p = position(connections, a, z);
        assert(index.contains_key(number_of(connections[p])));
    }
}

/// A fresh state of a flow that had none is filed at the end.
proof fn lemma_filed_push(
    connections: Seq<TcpConnection>,
    index: Map<u128, usize>,
    a: Endpoint,
    z: Endpoint,
)
    requires
        filed(connections, index),
        !tracks(connections, a, z),
        connections.len() <= usize::MAX,
    ensures
        filed(
            connections.push(TcpConnection::fresh(a, z)),
            index.insert(flow_number(a, z) as u128, connections.len() as usize),
        ),
{
    let k = flow_number(a, z) as u128;
    let n = connections.len() as int;
    let after = connections.push(TcpConnection::fresh(a, z));
    let filing = index.insert(k, n as usize);
    lemma_flow_number_fits(a, z);
    lemma_filed_lookup(connections, index, a, z);
    assert forall|i: int| 0 <= i < after.len() implies filing.contains_key(
        number_of(#[trigger] after[i]),
    ) && filing[number_of(after[i])] == i by {
        if i < n {
            assert(after[i] == connections[i]);
            assert(index.contains_key(number_of(connections[i])));
        }
    }
    assert forall|q: u128| #[trigger] filing.contains_key(q) implies filing[q] < after.len()
        && number_of(after[filing[q] as int]) == q by {
        if q != k {
            assert(index.contains_key(q));
            assert(after[index[q] as int] == connections[index[q] as int]);
        }
    }
}

/// A state may change where it stands as long as it stays its flow's.
proof fn lemma_filed_update(
    connections: Seq<TcpConnection>,
    index: Map<u128, usize>,
    at: int,
    state: TcpConnection,
)
    requires
        filed(connections, index),
        0 <= at < connections.len(),
        is_flow(state, connections[at].a_endpoint, connections[at].z_endpoint),
    ensures
        filed(connections.update(at, state), index),
{
    let after = connections.update(at, state);
    assert forall|i: int| 0 <= i < after.len() implies index.contains_key(
        number_of(#[trigger] after[i]),
    ) && index[number_of(after[i])] == i by {
        assert(number_of(after[i]) == number_of(connections[i]));
    }
    assert forall|q: u128| #[trigger] index.contains_key(q) implies index[q] < after.len()
        && number_of(after[index[q] as int]) == q by {
        assert(number_of(after[index[q] as int]) == number_of(connections[index[q] as int]));
    }
}

/// When the state at `at` is taken out and the last state takes its place,
/// the filing follows: the number of the state taken out goes, and the last
/// state's number is filed at `at`.
proof fn lemma_filed_remove(connections: Seq<TcpConnection>, index: Map<u128, usize>, at: int)
    requires
        filed(connections, index),
        0 <= at < connections.len(),
    ensures
        filed(
            connections.update(at, connections.last()).drop_last(),
            if at == connections.len() - 1 {
                index.remove(number_of(connections[at]))
            } else {
                index.remove(number_of(connections[at])).insert(
                    number_of(connections.last()),
                    at as usize,
                )
            },
        ),
{
    let last = connections.len() - 1;
    let after = connections.update(at, connections.last()).drop_last();
    let gone = number_of(connections[at]);
    let moved = number_of(connections[last]);
    let filing = if at == last {
        index.remove(gone)
    } else {
        index.remove(gone).insert(moved, at as usize)
    };
    assert(index.contains_key(number_of(connections[at])));
    assert(index.contains_key(number_of(connections[last])));
    assert forall|j: int| 0 <= j < after.len() implies filing.contains_key(
        number_of(#[trigger] after[j]),
    ) && filing[number_of(after[j])] == j by {
        if j == at {
            assert(after[j] == connections[last]);
        } else {
            assert(after[j] == connections[j]);
            assert(index.contains_key(number_of(connections[j])));
        }
    }
    assert forall|q: u128| #[trigger] filing.contains_key(q) implies filing[q] < after.len()
        && number_of(after[filing[q] as int]) == q by {
        if !(at != last && q == moved) {
            assert(index.contains_key(q));
            let was = index[q] as int;
            assert(after[was] == connections[was]);
        }
    }
}

/// What the table did with one datagram that it recorded.
#[derive(Clone, Copy, Debug, PartialEq, Eq, Structural)]
pub struct Observation {
    /// The identity the datagram resolved to.
    pub flow: Flow,
    /// Whether the datagram was the first of its flow.
    pub created: bool,
    /// The SYN counter of the datagram's direction after the update.
    pub syn_counter: u32,
    /// Whether the update calls for a warning: the counter has just reached
    /// the threshold.
    pub warning: bool,
}

/// Whether `o` is what the table reports of recording `datagram`, which
/// took the entries from `before` to `after`: the flow it resolved to,
/// whether that flow was new, the SYN counter of its direction after the
/// update, and whether that counter has just reached the threshold.
pub open spec fn observed(
    before: Seq<TcpConnection>,
    after: Seq<TcpConnection>,
    local: Ipv4Address,
    datagram: TcpDatagram,
    o: Observation,
) -> bool {
    &&& Some(o.flow) == resolved(datagram, local)
    &&& o.created == !tracks(before, o.flow.a_endpoint, o.flow.z_endpoint)
    &&& state_of(after, o.flow.a_endpoint, o.flow.z_endpoint) matches Some(c) && o.syn_counter
        == c.syns_in(o.flow.direction)
    &&& o.warning == warning_due(o.syn_counter)
}

/// The flow table of one local host.
#[derive(Clone, Debug)]
pub struct TcpDb {
    local_ipv4: Ipv4Address,
    connections: Vec<TcpConnection>,
    index: HashMap<u128, usize>,
    latest: Option<usize>,
}

impl TcpDb {
    /// The table's internal bookkeeping is consistent. Every constructor
    /// establishes this and every operation keeps it.
    pub closed spec fn wf(&self) -> bool {
        &&& filed(self.connections@, self.index@)
        &&& self.latest matches Some(i) ==> i < self.connections@.len()
    }

    /// The connection states, one for each flow held. A new flow's state
    /// goes to the end; when a flow is taken out, the last state takes its
    /// place. While nothing is taken out, the states stand in the order in
    /// which their flows were first seen.
    pub closed spec fn view(&self) -> Seq<TcpConnection> {
        self.connections@
    }

    /// The address of the host whose traffic the table tracks.
    pub closed spec fn local(&self) -> Ipv4Address {
        self.local_ipv4
    }

    /// Where the most recently updated state stands, if any was updated yet.
    pub closed spec fn latest_position(&self) -> Option<int> {
        match self.latest {
            Some(i) => Some(i as int),
            None => None,
        }
    }

    /// In a consistent table no flow has two entries, and the most recently
    /// updated state is one of the entries.
    pub proof fn lemma_wf_distinct(&self)
        requires
            self.wf(),
        ensures
            distinct_flows(self@),
            self.latest_position() matches Some(i) ==> 0 <= i < self@.len(),
    {
        lemma_filed_distinct(self.connections@, self.index@);
    }

    /// An empty table for the host `local_ipv4`.
    pub fn new(local_ipv4: Ipv4Address) -> (db: TcpDb)
        ensures
            db.wf(),
            db@ == Seq::<TcpConnection>::empty(),
            db.local() == local_ipv4,
            db.latest_position() is None,
    {
        TcpDb { local_ipv4, connections: Vec::new(), index: HashMap::new(), latest: None }
    }

    /// The address of the host whose traffic the table tracks.
    pub fn local_ipv4(&self) -> (ip: Ipv4Address)
        ensures
            ip == self.local(),
    {
        self.local_ipv4
    }

    /// The number of flows tracked.
    pub fn len(&self) -> (n: usize)
        ensures
            n == self@.len(),
    {
        self.connections.len()
    }

    /// Resolves the flow identity of `datagram` relative to the table's host.
    pub fn parse_flow(&self, datagram: &TcpDatagram) -> (flow: Option<Flow>)
        ensures
            flow == resolved(*datagram, self.local()),
            flow is Some <==> datagram.involves_address(self.local()),
    {
        resolve(datagram, self.local_ipv4)
    }

    fn find(&self, a: Endpoint, z: Endpoint) -> (found: Option<usize>)
        requires
            self.wf(),
        ensures
            found is Some <==> tracks(self@, a, z),
            found matches Some(i) ==> i < self@.len() && i == position(self@, a, z) && is_flow(
                self@[i as int],
                a,
                z,
            ),
    {
        proof {
            lemma_filed_lookup(self.connections@, self.index@, a, z);
        }
        let k = flow_key(a, z);
        match self.index.get(&k) {
            Some(i) => Some(*i),
            None => None,
        }
    }

    /// Whether the flow between `a` and `z` is tracked.
    pub fn contains(&self, a: Endpoint, z: Endpoint) -> (known: bool)
        requires
            self.wf(),
        ensures
            known == tracks(self@, a, z),
    {
        self.find(a, z).is_some()
    }

    /// A copy of the state of the flow between `a` and `z`, if it is tracked.
    pub fn get(&self, a: Endpoint, z: Endpoint) -> (state: Option<TcpConnection>)
        requires
            self.wf(),
        ensures
            state == state_of(self@, a, z),
            state is Some <==> tracks(self@, a, z),
            state matches Some(c) ==> is_flow(c, a, z),
    {
        match self.find(a, z) {
            Some(i) => Some(self.connections[i]),
            None => None,
        }
    }

    fn ensure(&mut self, a: Endpoint, z: Endpoint) -> (r: (usize, bool))
        requires
            old(self).wf(),
        ensures
            final(self).wf(),
            final(self).local() == old(self).local(),
            final(self).latest == old(self).latest,
            r.1 == !tracks(old(self)@, a, z),
            final(self)@ == with_flow(old(self)@, a, z),
            r.0 < final(self)@.len(),
            r.0 == position(final(self)@, a, z),
            is_flow(final(self)@[r.0 as int], a, z),
    {
        match self.find(a, z) {
            Some(i) => (i, false),
            None => {
                let k = flow_key(a, z);
                let n = self.connections.len();
                proof {
                    lemma_filed_push(self.connections@, self.index@, a, z);
                }
                self.connections.push(TcpConnection::between(a, z));
                self.index.insert(k, n);
                proof {
                    lemma_filed_lookup(self.connections@, self.index@, a, z);
                }
                (n, true)
            },
        }
    }

    /// Returns a copy of the state of the flow between `a` and `z`, creating
    /// a fresh one first if the flow was not tracked, and says whether it
    /// did create one.
    pub fn get_or_create(&mut self, a: Endpoint, z: Endpoint) -> (r: (TcpConnection, bool))
        requires
            old(self).wf(),
        ensures
            final(self).wf(),
            final(self).local() == old(self).local(),
            final(self).latest_position() == old(self).latest_position(),
            r.1 == !tracks(old(self)@, a, z),
            final(self)@ == with_flow(old(self)@, a, z),
            holds_flow(old(self)@, final(self)@, a, z),
            state_of(final(self)@, a, z) == Some(r.0),
            is_flow(r.0, a, z),
    {
        proof {
            self.lemma_wf_distinct();
            lemma_holds_flow(self@, a, z);
        }
        let (i, created) = self.ensure(a, z);
        (self.connections[i], created)
    }

    fn record(&mut self, flow: &Flow, datagram: &TcpDatagram) -> (r: (u32, bool))
        requires
            old(self).wf(),
        ensures
            final(self).wf(),
            final(self).local() == old(self).local(),
            final(self)@ == recorded(old(self)@, *flow, *datagram),
            records(old(self)@, final(self)@, *flow, *datagram),
            tracks(final(self)@, flow.a_endpoint, flow.z_endpoint),
            final(self).latest_position() == Some(
                position(final(self)@, flow.a_endpoint, flow.z_endpoint),
            ),
            r.0 == final(self)@[position(
                final(self)@,
                flow.a_endpoint,
                flow.z_endpoint,
            )].syns_in(flow.direction),
            r.1 == !tracks(old(self)@, flow.a_endpoint, flow.z_endpoint),
    {
        proof {
            self.lemma_wf_distinct();
            lemma_records(self@, *flow, *datagram);
        }
        let (i, created) = self.ensure(flow.a_endpoint, flow.z_endpoint);
        let mut c = self.connections[i];
        let counter = c.add(flow.direction, datagram);
        proof {
            lemma_filed_update(self.connections@, self.index@, i as int, c);
        }
        self.connections.set(i, c);
        self.latest = Some(i);
        proof {
            lemma_filed_lookup(self.connections@, self.index@, flow.a_endpoint, flow.z_endpoint);
        }
        (counter, created)
    }

    /// Records `datagram` for `flow`, creating the flow's state first if it
    /// was not tracked, and returns the SYN counter of the flow's direction
    /// after the update.
    pub fn update(&mut self, flow: &Flow, datagram: &TcpDatagram) -> (counter: u32)
        requires
            old(self).wf(),
        ensures
            final(self).wf(),
            final(self).local() == old(self).local(),
            final(self)@ == recorded(old(self)@, *flow, *datagram),
            records(old(self)@, final(self)@, *flow, *datagram),
            final(self).latest_position() == Some(
                position(final(self)@, flow.a_endpoint, flow.z_endpoint),
            ),
            state_of(final(self)@, flow.a_endpoint, flow.z_endpoint) matches Some(c)
                && counter == c.syns_in(flow.direction),
    {
        self.record(flow, datagram).0
    }

    /// Hands one datagram to the table. A datagram that does not involve the
    /// table's host is dropped and changes nothing. Any other is recorded for
    /// the flow it resolves to, which is created if this is its first
    /// datagram.
    pub fn add(&mut self, datagram: TcpDatagram) -> (seen: Option<Observation>)
        requires
            old(self).wf(),
        ensures
            final(self).wf(),
            final(self).local() == old(self).local(),
            final(self)@ == ingested(old(self)@, old(self).local(), datagram),
            seen is Some <==> datagram.involves_address(old(self).local()),
            seen is None ==> final(self)@ == old(self)@ && final(self).latest_position() == old(
                self,
            ).latest_position(),
            seen matches Some(o) ==> {
                &&& observed(old(self)@, final(self)@, old(self).local(), datagram, o)
                &&& records(old(self)@, final(self)@, o.flow, datagram)
                &&& final(self).latest_position() == Some(
                    position(final(self)@, o.flow.a_endpoint, o.flow.z_endpoint),
                )
            },
    {
        match self.parse_flow(&datagram) {
            None => None,
            Some(flow) => {
                let (syn_counter, created) = self.record(&flow, &datagram);
                Some(
                    Observation {
                        flow,
                        created,
                        syn_counter,
                        warning: syn_threshold_reached(syn_counter),
                    },
                )
            },
        }
    }

    /// Takes the flow between `a` and `z` out of the table and returns its
    /// state, if it was tracked. The last entry then stands in its place.
    pub fn remove(&mut self, a: Endpoint, z: Endpoint) -> (removed: Option<TcpConnection>)
        requires
            old(self).wf(),
        ensures
            final(self).wf(),
            final(self).local() == old(self).local(),
            final(self)@ == without_flow(old(self)@, a, z),
            lacks_flow(old(self)@, final(self)@, a, z),
            removed == state_of(old(self)@, a, z),
            final(self).latest_position() == if tracks(old(self)@, a, z) {
                latest_after_removal(
                    old(self).latest_position(),
                    position(old(self)@, a, z),
                    old(self)@.len() as int,
                )
            } else {
                old(self).latest_position()
            },
    {
        proof {
            self.lemma_wf_distinct();
            lemma_lacks_flow(self@, a, z);
        }
        match self.find(a, z) {
            None => None,
            Some(i) => {
                let k = flow_key(a, z);
                let last = self.connections.len() - 1;
                proof {
                    lemma_flow_number_fits(a, z);
                    lemma_filed_remove(self.connections@, self.index@, i as int);
                }
                let removed = self.connections.swap_remove(i);
                self.index.remove(&k);
                if i != last {
                    let moved = self.connections[i];
                    proof {
                        lemma_flow_number_fits(moved.a_endpoint, moved.z_endpoint);
                    }
                    self.index.insert(flow_key(moved.a_endpoint, moved.z_endpoint), i);
                }
                self.latest = match self.latest {
                    Some(at) => if at == i {
                        None
                    } else if at == last {
                        Some(i)
                    } else {
                        Some(at)
                    },
                    None => None,
                };
                Some(removed)
            },
        }
    }

    /// A copy of every connection state, in the table's order: that of
    /// first sight, as long as no flow was taken out.
    pub fn snapshot(&self) -> (all: Vec<TcpConnection>)
        ensures
            all@ == self@,
    {
        let mut all: Vec<TcpConnection> = Vec::new();
        let mut i: usize = 0;
        while i < self.connections.len()
            invariant
                i <= self.connections@.len(),
                all@ == self.connections@.subrange(0, i as int),
            decreases self.connections@.len() - i,
        {
            all.push(self.connections[i]);
            i = i + 1;
            assert(all@ =~= self.connections@.subrange(0, i as int));
        }
        assert(all@ =~= self@);
        all
    }

    /// A copy of the most recently updated connection state, or nothing if
    /// no datagram was recorded yet.
    pub fn latest(&self) -> (state: Option<TcpConnection>)
        requires
            self.wf(),
        ensures
            state == match self.latest_position() {
                Some(i) => Some(self@[i]),
                None => None,
            },
    {
        match self.latest {
            Some(i) => Some(self.connections[i]),
            None => None,
        }
    }
}

} // verus!
