//! What holds of the flow table over whole runs of operations, in whatever
//! order callers take their turns.

use vstd::prelude::*;
use crate::address::{Endpoint, Ipv4Address};
use crate::connection::{
    count_in, grown_from, lemma_counters_after_events, lemma_counters_never_fall,
    lemma_fresh_counters, payload_sum, Event, TcpConnection,
};
use crate::datagram::TcpDatagram;
use crate::flow::{resolved, Direction};
use crate::entries::{
    distinct_flows, ingested, is_flow, lemma_found_at, lemma_recorded, lemma_records,
    lemma_with_flow, position, recorded, state_of, state_or_fresh, tracks, with_flow,
};
use crate::processor::admitted;

verus! {

/// The entries after each of `requests` asked, in turn, for the state of
/// its flow.
pub open spec fn with_flows(
    entries: Seq<TcpConnection>,
    requests: Seq<(Endpoint, Endpoint)>,
) -> Seq<TcpConnection>
    decreases requests.len(),
{
    if requests.len() == 0 {
        entries
    } else {
        with_flow(with_flows(entries, requests.drop_last()), requests.last().0, requests.last().1)
    }
}

/// How many of `requests`, taken in turn, created the state of the flow
/// between `a` and `z`.
pub open spec fn creations(
    entries: Seq<TcpConnection>,
    requests: Seq<(Endpoint, Endpoint)>,
    a: Endpoint,
    z: Endpoint,
) -> nat
    decreases requests.len(),
{
    if requests.len() == 0 {
        0
    } else {
        creations(entries, requests.drop_last(), a, z) + if requests.last() == (a, z) && !tracks(
            with_flows(entries, requests.drop_last()),
            a,
            z,
        ) {
            1nat
        } else {
            0
        }
    }
}

/// The entries after each of `datagrams` was handed, in turn, to the table
/// of the host `local`.
pub open spec fn ingested_all(
    entries: Seq<TcpConnection>,
    local: Ipv4Address,
    datagrams: Seq<TcpDatagram>,
) -> Seq<TcpConnection>
    decreases datagrams.len(),
{
    if datagrams.len() == 0 {
        entries
    } else {
        ingested(ingested_all(entries, local, datagrams.drop_last()), local, datagrams.last())
    }
}

/// Those of `datagrams` that belong to the flow between `a` and `z` as seen
/// from the host `local`, each with its direction, in their order.
pub open spec fn events_of(
    datagrams: Seq<TcpDatagram>,
    local: Ipv4Address,
    a: Endpoint,
    z: Endpoint,
) -> Seq<Event>
    decreases datagrams.len(),
{
    if datagrams.len() == 0 {
        Seq::empty()
    } else {
        let before = events_of(datagrams.drop_last(), local, a, z);
        match resolved(datagrams.last(), local) {
            Some(flow) => if flow.a_endpoint == a && flow.z_endpoint == z {
                before.push((flow.direction, datagrams.last()))
            } else {
                before
            },
            None => before,
        }
    }
}

/// However many callers ask for the state of one flow, and in whatever order
/// they and the callers for other flows take their turns, exactly one of them
/// creates the state if the flow was not tracked, and none if it was; and
/// each of them is handed the same state.
pub proof fn lemma_single_creation(
    entries: Seq<TcpConnection>,
    requests: Seq<(Endpoint, Endpoint)>,
    a: Endpoint,
    z: Endpoint,
)
    requires
        distinct_flows(entries),
    ensures
        distinct_flows(with_flows(entries, requests)),
        creations(entries, requests, a, z) == if !tracks(entries, a, z) && requests.contains(
            (a, z),
        ) {
            1nat
        } else {
            0nat
        },
        state_of(with_flows(entries, requests), a, z) == if requests.contains((a, z)) {
            Some(state_or_fresh(entries, a, z))
        } else {
            state_of(entries, a, z)
        },
        forall|n: int|
            0 <= n < requests.len() && #[trigger] requests[n] == (a, z) ==> state_of(
                with_flows(entries, requests.take(n + 1)),
                a,
                z,
            ) == Some(state_or_fresh(entries, a, z)),
    decreases requests.len(),
{
    if requests.len() > 0 {
        let earlier = requests.drop_last();
        let last = requests.last();
        lemma_single_creation(entries, earlier, a, z);
        lemma_with_flow(with_flows(entries, earlier), last.0, last.1, a, z);
        if earlier.contains((a, z)) {
            let i = choose|i: int| 0 <= i < earlier.len() && earlier[i] == (a, z);
            assert(requests[i] == (a, z));
        }
        if requests.contains((a, z)) && last != (a, z) {
            let i = choose|i: int| 0 <= i < requests.len() && requests[i] == (a, z);
            assert(earlier[i] == (a, z));
        }
        assert forall|n: int| 0 <= n < requests.len() && #[trigger] requests[n] == (
            a,
            z,
        ) implies state_of(with_flows(entries, requests.take(n + 1)), a, z) == Some(
            state_or_fresh(entries, a, z),
        ) by {
            if n < earlier.len() {
                assert(earlier[n] == (a, z));
                assert(requests.take(n + 1) =~= earlier.take(n + 1));
            } else {
                assert(requests.take(n + 1) =~= requests);
            }
        }
    }
}

/// After any run of datagrams was handed to the table, the state of a flow
/// is what it was before, or fresh, updated by exactly those datagrams of the
/// run that belong to the flow, in their order; a flow none of them belongs
/// to is as it was.
pub proof fn lemma_ingested_all(
    entries: Seq<TcpConnection>,
    local: Ipv4Address,
    datagrams: Seq<TcpDatagram>,
    a: Endpoint,
    z: Endpoint,
)
    requires
        distinct_flows(entries),
    ensures
        distinct_flows(ingested_all(entries, local, datagrams)),
        state_of(ingested_all(entries, local, datagrams), a, z) == if events_of(
            datagrams,
            local,
            a,
            z,
        ).len() == 0 {
            state_of(entries, a, z)
        } else {
            Some(state_or_fresh(entries, a, z).updated_all(events_of(datagrams, local, a, z)))
        },
    decreases datagrams.len(),
{
    if datagrams.len() > 0 {
        let earlier = datagrams.drop_last();
        let last = datagrams.last();
        lemma_ingested_all(entries, local, earlier, a, z);
        let before = ingested_all(entries, local, earlier);
        let events = events_of(earlier, local, a, z);
        match resolved(last, local) {
            Some(flow) => {
                lemma_recorded(before, flow, last, a, z);
                if flow.a_endpoint == a && flow.z_endpoint == z {
                    let all = events.push((flow.direction, last));
                    assert(all.drop_last() =~= events);
                    assert(state_or_fresh(entries, a, z).updated_all(events)
                        == state_or_fresh(before, a, z)) by {
                        reveal_with_fuel(TcpConnection::updated_all, 1);
                    }
                }
            },
            None => {},
        }
    }
}

/// Whatever datagrams are handed to the table, a flow that has a state
/// keeps one, with the same endpoints and with no counter lower than before.
pub proof fn lemma_states_only_grow(
    entries: Seq<TcpConnection>,
    local: Ipv4Address,
    datagrams: Seq<TcpDatagram>,
    a: Endpoint,
    z: Endpoint,
)
    requires
        distinct_flows(entries),
        tracks(entries, a, z),
    ensures
        state_of(ingested_all(entries, local, datagrams), a, z) matches Some(later) && grown_from(
            later,
            state_of(entries, a, z)->0,
        ),
{
    lemma_ingested_all(entries, local, datagrams, a, z);
    lemma_counters_never_fall(state_or_fresh(entries, a, z), events_of(datagrams, local, a, z));
}

/// The entries after ingestion took each of `datagrams` in turn: a
/// datagram that gets past the filters is handed to the table, any other
/// changes nothing.
pub open spec fn processed_all(
    entries: Seq<TcpConnection>,
    filter: Seq<char>,
    store_port: Option<u16>,
    local: Ipv4Address,
    datagrams: Seq<TcpDatagram>,
) -> Seq<TcpConnection>
    decreases datagrams.len(),
{
    if datagrams.len() == 0 {
        entries
    } else {
        let before = processed_all(entries, filter, store_port, local, datagrams.drop_last());
        if admitted(filter, store_port, datagrams.last()) {
            ingested(before, local, datagrams.last())
        } else {
            before
        }
    }
}

/// Whether no flow of `entries` has `port` at either of its ends.
pub open spec fn clear_of_port(entries: Seq<TcpConnection>, port: u16) -> bool {
    forall|i: int|
        0 <= i < entries.len() ==> (#[trigger] entries[i]).a_endpoint.port != port
            && entries[i].z_endpoint.port != port
}

/// Whatever traffic ingestion takes, it never comes to track a flow that
/// has the backing store's port at either end.
pub proof fn lemma_store_traffic_never_tracked(
    entries: Seq<TcpConnection>,
    filter: Seq<char>,
    port: u16,
    local: Ipv4Address,
    datagrams: Seq<TcpDatagram>,
)
    requires
        distinct_flows(entries),
        clear_of_port(entries, port),
    ensures
        distinct_flows(processed_all(entries, filter, Some(port), local, datagrams)),
        clear_of_port(processed_all(entries, filter, Some(port), local, datagrams), port),
    decreases datagrams.len(),
{
    if datagrams.len() > 0 {
        let last = datagrams.last();
        let before = processed_all(entries, filter, Some(port), local, datagrams.drop_last());
        lemma_store_traffic_never_tracked(entries, filter, port, local, datagrams.drop_last());
        if admitted(filter, Some(port), last) {
            match resolved(last, local) {
                Some(flow) => {
                    let after = recorded(before, flow, last);
                    lemma_records(before, flow, last);
                    assert forall|i: int| 0 <= i < after.len() implies {
                        &&& (#[trigger] after[i]).a_endpoint.port != port
                        &&& after[i].z_endpoint.port != port
                    } by {
                        let b = after[i].a_endpoint;
                        let y = after[i].z_endpoint;
                        lemma_found_at(after, i);
                        if !(b == flow.a_endpoint && y == flow.z_endpoint) {
                            assert(state_of(before, b, y) == state_of(after, b, y));
                            let at = position(before, b, y);
                            assert(is_flow(before[at], b, y));
                        }
                    }
                },
                None => {},
            }
        }
    }
}

/// In a table that starts empty, after any run of datagrams, a tracked
/// flow's byte total in a direction is the sum of the payload bytes of the
/// run's datagrams that travelled in that direction of the flow, and its SYN
/// counter in that direction is their number, as long as these fit the
/// counters.
pub proof fn lemma_counters_from_empty(
    local: Ipv4Address,
    datagrams: Seq<TcpDatagram>,
    a: Endpoint,
    z: Endpoint,
    direction: Direction,
)
    ensures
        ({
            let after = ingested_all(Seq::empty(), local, datagrams);
            let events = events_of(datagrams, local, a, z);
            &&& tracks(after, a, z) <==> events.len() > 0
            &&& state_of(after, a, z) matches Some(c) ==> {
                &&& is_flow(c, a, z)
                &&& payload_sum(events, direction) <= u64::MAX ==> c.bytes_in(direction)
                    == payload_sum(events, direction)
                &&& count_in(events, direction) <= u32::MAX ==> c.syns_in(direction) == count_in(
                    events,
                    direction,
                )
            }
        }),
{
    let none = Seq::<TcpConnection>::empty();
    lemma_ingested_all(none, local, datagrams, a, z);
    let events = events_of(datagrams, local, a, z);
    lemma_fresh_counters(a, z, events, direction);
    lemma_counters_after_events(TcpConnection::fresh(a, z), events, direction);
}

} // verus!
