//! A flow table that never holds more than a set number of flows: when a
//! new flow arrives at a full table, the flow that was first seen longest
//! ago makes room for it.

use vstd::prelude::*;
use std::collections::VecDeque;
use crate::address::{Endpoint, Ipv4Address};
use crate::connection::{syn_threshold_reached, TcpConnection};
use crate::datagram::TcpDatagram;
use crate::entries::{
    distinct_flows, holds_flow, is_flow, lacks_flow, lemma_lacks_flow, recorded, records,
    same_except, state_of, tracks, with_flow, without_flow,
};
use crate::flow::{resolved, Flow};
use crate::tcp_db::{observed, Observation, TcpDb};

verus! {

/// What a bounded table did with one datagram.
#[derive(Clone, Copy, Debug, PartialEq, Eq, Structural)]
pub struct Admission {
    /// What was recorded, if the datagram involves the local host.
    pub seen: Option<Observation>,
    /// The state that had to make room, if any.
    pub evicted: Option<TcpConnection>,
}

/// Whether the flow between `a` and `z` needs room made before it can have
/// a state: it has none, and there are as many states as there may be.
pub open spec fn needs_room(
    entries: Seq<TcpConnection>,
    limit: nat,
    a: Endpoint,
    z: Endpoint,
) -> bool {
    !tracks(entries, a, z) && entries.len() >= limit
}

/// The entries with room made for the flow between `a` and `z` if needed,
/// by taking out the first flow of `order`.
pub open spec fn with_room(
    entries: Seq<TcpConnection>,
    order: Seq<(Endpoint, Endpoint)>,
    limit: nat,
    a: Endpoint,
    z: Endpoint,
) -> Seq<TcpConnection> {
    if needs_room(entries, limit, a, z) {
        without_flow(entries, order[0].0, order[0].1)
    } else {
        entries
    }
}

/// The state that makes room for the flow between `a` and `z`, if room is
/// needed: that of the first flow of `order`.
pub open spec fn making_room(
    entries: Seq<TcpConnection>,
    order: Seq<(Endpoint, Endpoint)>,
    limit: nat,
    a: Endpoint,
    z: Endpoint,
) -> Option<TcpConnection> {
    if needs_room(entries, limit, a, z) {
        state_of(entries, order[0].0, order[0].1)
    } else {
        None
    }
}

/// The order of first sight once the flow between `a` and `z` has its
/// state: the oldest flow has left if room was needed, and a new flow has
/// joined at the end.
pub open spec fn order_after(
    order: Seq<(Endpoint, Endpoint)>,
    entries: Seq<TcpConnection>,
    limit: nat,
    a: Endpoint,
    z: Endpoint,
) -> Seq<(Endpoint, Endpoint)> {
    let kept = if needs_room(entries, limit, a, z) {
        order.drop_first()
    } else {
        order
    };
    if tracks(entries, a, z) {
        kept
    } else {
        kept.push((a, z))
    }
}

/// Whether `room` is `entries` with room made for the flow between `a` and
/// `z` if needed, said flow by flow: if room is needed, the first flow of
/// `order` had a state and has none now, and every other flow is as it was.
pub open spec fn makes_room(
    entries: Seq<TcpConnection>,
    order: Seq<(Endpoint, Endpoint)>,
    limit: nat,
    a: Endpoint,
    z: Endpoint,
    room: Seq<TcpConnection>,
) -> bool {
    if needs_room(entries, limit, a, z) {
        &&& order.len() >= 1
        &&& state_of(entries, order[0].0, order[0].1) is Some
        &&& lacks_flow(entries, room, order[0].0, order[0].1)
        &&& !tracks(room, a, z)
    } else {
        room == entries
    }
}

/// Whether `order` names exactly the flows of `entries`, each once.
pub open spec fn orders(order: Seq<(Endpoint, Endpoint)>, entries: Seq<TcpConnection>) -> bool {
    &&& order.len() == entries.len()
    &&& order.no_duplicates()
    &&& forall|a: Endpoint, z: Endpoint| #[trigger]
        tracks(entries, a, z) <==> order.contains((a, z))
}

/// When the oldest flow is taken out, the order without its first flow is
/// that of the flows left.
proof fn lemma_orders_without_oldest(
    order: Seq<(Endpoint, Endpoint)>,
    entries: Seq<TcpConnection>,
)
    requires
        distinct_flows(entries),
        orders(order, entries),
        order.len() >= 1,
    ensures
        orders(order.drop_first(), without_flow(entries, order[0].0, order[0].1)),
{
    let oldest = order[0];
    let kept = order.drop_first();
    let room = without_flow(entries, oldest.0, oldest.1);
    assert(order.contains(oldest));
    lemma_lacks_flow(entries, oldest.0, oldest.1);
    assert forall|i: int, j: int|
        0 <= i < kept.len() && 0 <= j < kept.len() && i != j implies kept[i] != kept[j] by {
        assert(kept[i] == order[i + 1]);
        assert(kept[j] == order[j + 1]);
    }
    assert forall|a: Endpoint, z: Endpoint| #[trigger] tracks(room, a, z) <==> kept.contains(
        (a, z),
    ) by {
        if (a, z) != oldest {
            assert(state_of(room, a, z) == state_of(entries, a, z));
        }
        if tracks(room, a, z) {
            assert(order.contains((a, z)));
            let m = choose|m: int| 0 <= m < order.len() && order[m] == (a, z);
            assert(kept[m - 1] == (a, z));
        }
        if kept.contains((a, z)) {
            let m = choose|m: int| 0 <= m < kept.len() && kept[m] == (a, z);
            assert(order[m + 1] == (a, z));
            assert(order[m + 1] != order[0]);
        }
    }
}

/// When a flow that had no state gets one, the order with the flow at its
/// end is that of the flows then held.
proof fn lemma_orders_with_new(
    order: Seq<(Endpoint, Endpoint)>,
    entries: Seq<TcpConnection>,
    after: Seq<TcpConnection>,
    a: Endpoint,
    z: Endpoint,
)
    requires
        orders(order, entries),
        !tracks(entries, a, z),
        after.len() == entries.len() + 1,
        tracks(after, a, z),
        same_except(entries, after, a, z),
    ensures
        orders(order.push((a, z)), after),
{
    let longer = order.push((a, z));
    assert forall|i: int, j: int|
        0 <= i < longer.len() && 0 <= j < longer.len() && i != j implies longer[i]
        != longer[j] by {
        if i < order.len() {
            assert(order.contains(longer[i]));
        }
        if j < order.len() {
            assert(order.contains(longer[j]));
        }
    }
    assert forall|b: Endpoint, y: Endpoint| #[trigger] tracks(after, b, y) <==> longer.contains(
        (b, y),
    ) by {
        if b == a && y == z {
            assert(longer[order.len() as int] == (a, z));
        } else {
            assert(state_of(after, b, y) == state_of(entries, b, y));
            if order.contains((b, y)) {
                let m = choose|m: int| 0 <= m < order.len() && order[m] == (b, y);
                assert(longer[m] == (b, y));
            }
            if longer.contains((b, y)) {
                let m = choose|m: int| 0 <= m < longer.len() && longer[m] == (b, y);
                assert(order[m] == (b, y));
            }
        }
    }
}

/// When no flow comes or goes, the order stays that of the flows held.
proof fn lemma_orders_same_flows(
    order: Seq<(Endpoint, Endpoint)>,
    entries: Seq<TcpConnection>,
    after: Seq<TcpConnection>,
    a: Endpoint,
    z: Endpoint,
)
    requires
        orders(order, entries),
        tracks(entries, a, z),
        after.len() == entries.len(),
        tracks(after, a, z),
        same_except(entries, after, a, z),
    ensures
        orders(order, after),
{
    assert forall|b: Endpoint, y: Endpoint| #[trigger] tracks(after, b, y) <==> order.contains(
        (b, y),
    ) by {
        if !(b == a && y == z) {
            assert(state_of(after, b, y) == state_of(entries, b, y));
        }
    }
}

/// A flow table with a limit on the number of flows.
pub struct BoundedTcpDb {
    db: TcpDb,
    order: VecDeque<(Endpoint, Endpoint)>,
    capacity: usize,
}

impl BoundedTcpDb {
    /// The table's internal bookkeeping is consistent. Every constructor
    /// establishes this and every operation keeps it.
    pub closed spec fn wf(&self) -> bool {
        &&& self.db.wf()
        &&& self.capacity >= 1
        &&& self.db@.len() <= self.capacity
        &&& orders(self.order@, self.db@)
    }

    /// The connection states held.
    pub closed spec fn view(&self) -> Seq<TcpConnection> {
        self.db@
    }

    /// The flows held, the one first seen longest ago first.
    pub closed spec fn order(&self) -> Seq<(Endpoint, Endpoint)> {
        self.order@
    }

    /// The largest number of flows the table holds.
    pub closed spec fn limit(&self) -> nat {
        self.capacity as nat
    }

    /// The address of the host whose traffic the table tracks.
    pub closed spec fn local(&self) -> Ipv4Address {
        self.db.local()
    }

    /// A consistent table has a limit of at least one flow and holds no
    /// more flows than that, holds no flow twice, and knows the order of
    /// exactly the flows it holds.
    pub proof fn lemma_wf(&self)
        requires
            self.wf(),
        ensures
            self@.len() <= self.limit(),
            self.limit() >= 1,
            distinct_flows(self@),
            orders(self.order(), self@),
    {
        self.db.lemma_wf_distinct();
    }

    /// An empty table for the host `local_ipv4` that holds up to `capacity`
    /// flows. A capacity of zero counts as one.
    pub fn new(local_ipv4: Ipv4Address, capacity: usize) -> (table: BoundedTcpDb)
        ensures
            table.wf(),
            table@ == Seq::<TcpConnection>::empty(),
            table.order() == Seq::<(Endpoint, Endpoint)>::empty(),
            table.local() == local_ipv4,
            table.limit() == if capacity == 0 {
                1nat
            } else {
                capacity as nat
            },
    {
        let capacity = if capacity == 0 {
            1
        } else {
            capacity
        };
        BoundedTcpDb { db: TcpDb::new(local_ipv4), order: VecDeque::new(), capacity }
    }

    /// The largest number of flows the table holds.
    pub fn capacity(&self) -> (limit: usize)
        ensures
            limit == self.limit(),
    {
        self.capacity
    }

    /// The number of flows held.
    pub fn len(&self) -> (n: usize)
        ensures
            n == self@.len(),
    {
        self.db.len()
    }

    /// The table of the flows held, to read from.
    pub fn table(&self) -> (db: &TcpDb)
        ensures
            db@ == self@,
            db.local() == self.local(),
            self.wf() ==> db.wf(),
    {
        &self.db
    }

    /// Makes room for the flow between `a` and `z` if it needs room, by
    /// taking out the oldest flow, whose state is returned.
    fn make_room(&mut self, a: Endpoint, z: Endpoint) -> (evicted: Option<TcpConnection>)
        requires
            old(self).wf(),
        ensures
            final(self).db.wf(),
            final(self).capacity == old(self).capacity,
            final(self).local() == old(self).local(),
            final(self)@ == with_room(old(self)@, old(self).order(), old(self).limit(), a, z),
            makes_room(old(self)@, old(self).order(), old(self).limit(), a, z, final(self)@),
            final(self).order() == if needs_room(old(self)@, old(self).limit(), a, z) {
                old(self).order().drop_first()
            } else {
                old(self).order()
            },
            orders(final(self).order(), final(self)@),
            distinct_flows(final(self)@),
            tracks(final(self)@, a, z) == tracks(old(self)@, a, z),
            tracks(final(self)@, a, z) || final(self)@.len() < final(self).limit(),
            evicted == making_room(old(self)@, old(self).order(), old(self).limit(), a, z),
            evicted is Some <==> needs_room(old(self)@, old(self).limit(), a, z),
    {
        proof {
            self.lemma_wf();
        }
        if self.db.contains(a, z) || self.db.len() < self.capacity {
            return None;
        }
        proof {
            let oldest = self.order@[0];
            assert(self.order@.contains(oldest));
            lemma_orders_without_oldest(self.order@, self.db@);
            lemma_lacks_flow(self.db@, oldest.0, oldest.1);
        }
        match self.order.pop_front() {
            Some(oldest) => self.db.remove(oldest.0, oldest.1),
            None => None,
        }
    }

    /// Returns a copy of the state of the flow between `a` and `z`, creating
    /// a fresh one first if the flow is new, and says whether it did create
    /// one. If the flow is new and the table is full, the flow first seen
    /// longest ago is taken out first and its state handed back.
    pub fn get_or_create(&mut self, a: Endpoint, z: Endpoint) -> (r: (
        TcpConnection,
        bool,
        Option<TcpConnection>,
    ))
        requires
            old(self).wf(),
        ensures
            final(self).wf(),
            final(self).local() == old(self).local(),
            final(self).limit() == old(self).limit(),
            final(self)@.len() <= final(self).limit(),
            ({
                let room = with_room(old(self)@, old(self).order(), old(self).limit(), a, z);
                &&& makes_room(old(self)@, old(self).order(), old(self).limit(), a, z, room)
                &&& final(self)@ == with_flow(room, a, z)
                &&& holds_flow(room, final(self)@, a, z)
            }),
            final(self).order() == order_after(
                old(self).order(),
                old(self)@,
                old(self).limit(),
                a,
                z,
            ),
            r.2 == making_room(old(self)@, old(self).order(), old(self).limit(), a, z),
            r.2 is Some <==> needs_room(old(self)@, old(self).limit(), a, z),
            r.1 == !tracks(old(self)@, a, z),
            state_of(final(self)@, a, z) == Some(r.0),
            is_flow(r.0, a, z),
    {
        let evicted = self.make_room(a, z);
        let ghost room = self.db@;
        let (state, created) = self.db.get_or_create(a, z);
        if created {
            proof {
                lemma_orders_with_new(self.order@, room, self.db@, a, z);
            }
            self.order.push_back((a, z));
        }
        (state, created, evicted)
    }

    fn record(&mut self, flow: &Flow, datagram: &TcpDatagram) -> (r: (
        u32,
        bool,
        Option<TcpConnection>,
    ))
        requires
            old(self).wf(),
        ensures
            final(self).wf(),
            final(self).local() == old(self).local(),
            final(self).limit() == old(self).limit(),
            final(self)@.len() <= final(self).limit(),
            ({
                let a = flow.a_endpoint;
                let z = flow.z_endpoint;
                let room = with_room(old(self)@, old(self).order(), old(self).limit(), a, z);
                &&& makes_room(old(self)@, old(self).order(), old(self).limit(), a, z, room)
                &&& final(self)@ == recorded(room, *flow, *datagram)
                &&& records(room, final(self)@, *flow, *datagram)
                &&& final(self).order() == order_after(
                    old(self).order(),
                    old(self)@,
                    old(self).limit(),
                    a,
                    z,
                )
                &&& r.2 == making_room(old(self)@, old(self).order(), old(self).limit(), a, z)
                &&& r.2 is Some <==> needs_room(old(self)@, old(self).limit(), a, z)
                &&& r.1 == !tracks(old(self)@, a, z)
                &&& r.1 == !tracks(room, a, z)
                &&& state_of(final(self)@, a, z) matches Some(c) && r.0 == c.syns_in(
                    flow.direction,
                )
            }),
    {
        let a = flow.a_endpoint;
        let z = flow.z_endpoint;
        let evicted = self.make_room(a, z);
        let ghost room = self.db@;
        let created = !self.db.contains(a, z);
        let counter = self.db.update(flow, datagram);
        if created {
            proof {
                lemma_orders_with_new(self.order@, room, self.db@, a, z);
            }
            self.order.push_back((a, z));
        } else {
            proof {
                lemma_orders_same_flows(self.order@, room, self.db@, a, z);
            }
        }
        (counter, created, evicted)
    }

    /// Records `datagram` for `flow` and returns the SYN counter of the
    /// flow's direction after the update. If the flow is new and the table is
    /// full, the flow first seen longest ago is taken out first and its state
    /// handed back.
    pub fn update(&mut self, flow: &Flow, datagram: &TcpDatagram) -> (r: (
        u32,
        Option<TcpConnection>,
    ))
        requires
            old(self).wf(),
        ensures
            final(self).wf(),
            final(self).local() == old(self).local(),
            final(self).limit() == old(self).limit(),
            final(self)@.len() <= final(self).limit(),
            ({
                let a = flow.a_endpoint;
                let z = flow.z_endpoint;
                let room = with_room(old(self)@, old(self).order(), old(self).limit(), a, z);
                &&& makes_room(old(self)@, old(self).order(), old(self).limit(), a, z, room)
                &&& final(self)@ == recorded(room, *flow, *datagram)
                &&& records(room, final(self)@, *flow, *datagram)
                &&& final(self).order() == order_after(
                    old(self).order(),
                    old(self)@,
                    old(self).limit(),
                    a,
                    z,
                )
                &&& r.1 == making_room(old(self)@, old(self).order(), old(self).limit(), a, z)
                &&& r.1 is Some <==> needs_room(old(self)@, old(self).limit(), a, z)
                &&& state_of(final(self)@, a, z) matches Some(c) && r.0 == c.syns_in(
                    flow.direction,
                )
            }),
    {
        let (counter, _, evicted) = self.record(flow, datagram);
        (counter, evicted)
    }

    /// Hands one datagram to the table. A datagram that does not involve
    /// the table's host changes nothing. Any other is recorded for the flow
    /// it resolves to; if that flow is new and the table is full, the flow
    /// first seen longest ago is taken out first and its state handed back.
    pub fn add(&mut self, datagram: TcpDatagram) -> (done: Admission)
        requires
            old(self).wf(),
        ensures
            final(self).wf(),
            final(self).local() == old(self).local(),
            final(self).limit() == old(self).limit(),
            final(self)@.len() <= final(self).limit(),
            match resolved(datagram, old(self).local()) {
                None => {
                    &&& final(self)@ == old(self)@
                    &&& final(self).order() == old(self).order()
                    &&& done.seen is None
                    &&& done.evicted is None
                },
                Some(flow) => {
                    let a = flow.a_endpoint;
                    let z = flow.z_endpoint;
                    let room = with_room(old(self)@, old(self).order(), old(self).limit(), a, z);
                    &&& makes_room(old(self)@, old(self).order(), old(self).limit(), a, z, room)
                    &&& final(self)@ == recorded(room, flow, datagram)
                    &&& records(room, final(self)@, flow, datagram)
                    &&& final(self).order() == order_after(
                        old(self).order(),
                        old(self)@,
                        old(self).limit(),
                        a,
                        z,
                    )
                    &&& done.evicted == making_room(
                        old(self)@,
                        old(self).order(),
                        old(self).limit(),
                        a,
                        z,
                    )
                    &&& done.evicted is Some <==> needs_room(old(self)@, old(self).limit(), a, z)
                    &&& done.seen matches Some(o) && observed(
                        room,
                        final(self)@,
                        old(self).local(),
                        datagram,
                        o,
                    )
                },
            },
    {
        match self.db.parse_flow(&datagram) {
            None => {
                proof {
                    self.lemma_wf();
                }
                Admission { seen: None, evicted: None }
            },
            Some(flow) => {
                let (syn_counter, created, evicted) = self.record(&flow, &datagram);
                Admission {
                    seen: Some(
                        Observation {
                            flow,
                            created,
                            syn_counter,
                            warning: syn_threshold_reached(syn_counter),
                        },
                    ),
                    evicted,
                }
            },
        }
    }
}

} // verus!
