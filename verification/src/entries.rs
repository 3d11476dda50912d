//! The flow table as a mathematical object: a sequence of connection
//! states with no flow in it twice, and what each operation makes of it.

use vstd::prelude::*;
use crate::address::{Endpoint, Ipv4Address};
use crate::connection::TcpConnection;
use crate::datagram::TcpDatagram;
use crate::flow::{resolved, Flow};

verus! {

/// Whether `c` is the state of the flow between `a` and `z`.
pub open spec fn is_flow(c: TcpConnection, a: Endpoint, z: Endpoint) -> bool {
    c.a_endpoint == a && c.z_endpoint == z
}

/// Whether the flow between `a` and `z` is among `entries`.
pub open spec fn tracks(entries: Seq<TcpConnection>, a: Endpoint, z: Endpoint) -> bool {
    exists|i: int| 0 <= i < entries.len() && is_flow(#[trigger] entries[i], a, z)
}

/// Where the flow between `a` and `z` stands among `entries`, if it is there.
pub open spec fn position(entries: Seq<TcpConnection>, a: Endpoint, z: Endpoint) -> int {
    choose|i: int| 0 <= i < entries.len() && is_flow(#[trigger] entries[i], a, z)
}

/// No flow has two entries.
pub open spec fn distinct_flows(entries: Seq<TcpConnection>) -> bool {
    forall|i: int, j: int|
        0 <= i < j < entries.len() ==> !is_flow(
            #[trigger] entries[i],
            (#[trigger] entries[j]).a_endpoint,
            entries[j].z_endpoint,
        )
}

/// The entries after the flow between `a` and `z` was asked for: as before
/// if it was there, else with a fresh state for it at the end.
pub open spec fn with_flow(entries: Seq<TcpConnection>, a: Endpoint, z: Endpoint) -> Seq<
    TcpConnection,
> {
    if tracks(entries, a, z) {
        entries
    } else {
        entries.push(TcpConnection::fresh(a, z))
    }
}

/// The entries after the flow between `a` and `z` was taken out: as before
/// if it was not there, else without its state, the last entry standing in
/// its place.
pub open spec fn without_flow(entries: Seq<TcpConnection>, a: Endpoint, z: Endpoint) -> Seq<
    TcpConnection,
> {
    if tracks(entries, a, z) {
        entries.update(position(entries, a, z), entries.last()).drop_last()
    } else {
        entries
    }
}

/// Where the most recently updated state stands after the entry at `gap`
/// was taken out of `length` entries and the last entry took its place.
pub open spec fn latest_after_removal(latest: Option<int>, gap: int, length: int) -> Option<int> {
    match latest {
        Some(at) => if at == gap {
            None
        } else if at == length - 1 {
            Some(gap)
        } else {
            Some(at)
        },
        None => None,
    }
}

/// The entries after `datagram` was recorded for `flow`: the flow's state,
/// fresh if there was none, is updated in the flow's direction and every
/// other entry stays as it is.
pub open spec fn recorded(
    entries: Seq<TcpConnection>,
    flow: Flow,
    datagram: TcpDatagram,
) -> Seq<TcpConnection> {
    let base = with_flow(entries, flow.a_endpoint, flow.z_endpoint);
    let at = position(base, flow.a_endpoint, flow.z_endpoint);
    base.update(at, base[at].updated(flow.direction, datagram))
}

/// The entries after `datagram` was handed to the table of the host
/// `local`: unchanged if the datagram does not involve the host, else
/// recorded for the flow it resolves to.
pub open spec fn ingested(
    entries: Seq<TcpConnection>,
    local: Ipv4Address,
    datagram: TcpDatagram,
) -> Seq<TcpConnection> {
    match resolved(datagram, local) {
        Some(flow) => recorded(entries, flow, datagram),
        None => entries,
    }
}

/// The state that `entries` hold for the flow between `a` and `z`, if any.
pub open spec fn state_of(entries: Seq<TcpConnection>, a: Endpoint, z: Endpoint) -> Option<
    TcpConnection,
> {
    if tracks(entries, a, z) {
        Some(entries[position(entries, a, z)])
    } else {
        None
    }
}

/// The state that `entries` hold for the flow between `a` and `z`, or the
/// fresh state that would be created for it.
pub open spec fn state_or_fresh(
    entries: Seq<TcpConnection>,
    a: Endpoint,
    z: Endpoint,
) -> TcpConnection {
    match state_of(entries, a, z) {
        Some(c) => c,
        None => TcpConnection::fresh(a, z),
    }
}

/// Whether every flow but the one between `a` and `z` has in `after` the
/// state, or the lack of one, that it has in `before`.
pub open spec fn same_except(
    before: Seq<TcpConnection>,
    after: Seq<TcpConnection>,
    a: Endpoint,
    z: Endpoint,
) -> bool {
    forall|b: Endpoint, y: Endpoint|
        !(b == a && y == z) ==> #[trigger] state_of(after, b, y) == state_of(before, b, y)
}

/// Where no flow has two entries, an entry is found at its own place.
pub proof fn lemma_found_at(entries: Seq<TcpConnection>, i: int)
    requires
        distinct_flows(entries),
        0 <= i < entries.len(),
    ensures
        tracks(entries, entries[i].a_endpoint, entries[i].z_endpoint),
        position(entries, entries[i].a_endpoint, entries[i].z_endpoint) == i,
        state_of(entries, entries[i].a_endpoint, entries[i].z_endpoint) == Some(entries[i]),
{
    let a = entries[i].a_endpoint;
    let z = entries[i].z_endpoint;
    assert(is_flow(entries[i], a, z));
    let p = position(entries, a, z);
    if p != i {
        assert(is_flow(entries[p], a, z));
    }
}

/// Asking for a flow leaves every state that was there as it was, adds a
/// fresh state for the flow if it had none, and never gives a flow two
/// entries.
pub proof fn lemma_with_flow(
    entries: Seq<TcpConnection>,
    a: Endpoint,
    z: Endpoint,
    b: Endpoint,
    y: Endpoint,
)
    requires
        distinct_flows(entries),
    ensures
        distinct_flows(with_flow(entries, a, z)),
        state_of(with_flow(entries, a, z), b, y) == if b == a && y == z {
            Some(state_or_fresh(entries, a, z))
        } else {
            state_of(entries, b, y)
        },
{
    let after = with_flow(entries, a, z);
    if tracks(entries, a, z) {
    } else {
        let n = entries.len() as int;
        assert(after[n] == TcpConnection::fresh(a, z));
        assert forall|i: int, j: int| 0 <= i < j < after.len() implies !is_flow(
            #[trigger] after[i],
            (#[trigger] after[j]).a_endpoint,
            after[j].z_endpoint,
        ) by {
            assert(after[i] == entries[i]);
            if j < n {
                assert(after[j] == entries[j]);
            }
        }
        if b == a && y == z {
            lemma_found_at(after, n);
        } else if tracks(entries, b, y) {
            let p = position(entries, b, y);
            assert(after[p] == entries[p]);
            lemma_found_at(after, p);
        } else if tracks(after, b, y) {
            let p = position(after, b, y);
            assert(is_flow(after[p], b, y));
            if p < n {
                assert(after[p] == entries[p]);
            }
        }
    }
}

/// Taking a flow out leaves every other flow its state, leaves the flow
/// taken out with none, and makes the table one entry shorter if the flow was
/// there.
pub proof fn lemma_without_flow(
    entries: Seq<TcpConnection>,
    a: Endpoint,
    z: Endpoint,
    b: Endpoint,
    y: Endpoint,
)
    requires
        distinct_flows(entries),
    ensures
        distinct_flows(without_flow(entries, a, z)),
        without_flow(entries, a, z).len() == if tracks(entries, a, z) {
            entries.len() - 1
        } else {
            entries.len() as int
        },
        state_of(without_flow(entries, a, z), b, y) == if b == a && y == z {
            None
        } else {
            state_of(entries, b, y)
        },
{
    if tracks(entries, a, z) {
        let at = position(entries, a, z);
        let last = entries.len() - 1;
        let after = without_flow(entries, a, z);
        assert(is_flow(entries[at], a, z));
        assert forall|i: int| 0 <= i < after.len() implies #[trigger] after[i] == if i == at {
            entries[last]
        } else {
            entries[i]
        } by {}
        assert forall|i: int, j: int| 0 <= i < j < after.len() implies !is_flow(
            #[trigger] after[i],
            (#[trigger] after[j]).a_endpoint,
            after[j].z_endpoint,
        ) by {
            let from_i = if i == at {
                last
            } else {
                i
            };
            let from_j = if j == at {
                last
            } else {
                j
            };
            assert(after[i] == entries[from_i]);
            assert(after[j] == entries[from_j]);
            if from_i < from_j {
                let later = entries[from_j];
                assert(!is_flow(entries[from_i], later.a_endpoint, later.z_endpoint));
            } else {
                let later = entries[from_i];
                assert(!is_flow(entries[from_j], later.a_endpoint, later.z_endpoint));
            }
        }
        if tracks(after, b, y) {
            let p = position(after, b, y);
            assert(is_flow(after[p], b, y));
            let from = if p == at {
                last
            } else {
                p
            };
            assert(after[p] == entries[from]);
            lemma_found_at(entries, from);
            lemma_found_at(entries, at);
            lemma_found_at(after, p);
        } else if tracks(entries, b, y) && !(b == a && y == z) {
            let p = position(entries, b, y);
            assert(is_flow(entries[p], b, y));
            let to = if p == last {
                at
            } else {
                p
            };
            assert(after[to] == entries[p]);
            assert(is_flow(after[to], b, y));
        }
    }
}

/// Recording a datagram for a flow replaces that flow's state, fresh if it
/// had none, by the updated one; every other flow keeps its state, and no
/// flow gets two entries.
pub proof fn lemma_recorded(
    entries: Seq<TcpConnection>,
    flow: Flow,
    datagram: TcpDatagram,
    b: Endpoint,
    y: Endpoint,
)
    requires
        distinct_flows(entries),
    ensures
        distinct_flows(recorded(entries, flow, datagram)),
        recorded(entries, flow, datagram).len() == if tracks(
            entries,
            flow.a_endpoint,
            flow.z_endpoint,
        ) {
            entries.len()
        } else {
            entries.len() + 1
        },
        state_of(recorded(entries, flow, datagram), b, y) == if b == flow.a_endpoint && y
            == flow.z_endpoint {
            Some(
                state_or_fresh(entries, flow.a_endpoint, flow.z_endpoint).updated(
                    flow.direction,
                    datagram,
                ),
            )
        } else {
            state_of(entries, b, y)
        },
{
    let a = flow.a_endpoint;
    let z = flow.z_endpoint;
    let base = with_flow(entries, a, z);
    lemma_with_flow(entries, a, z, a, z);
    lemma_with_flow(entries, a, z, b, y);
    let at = position(base, a, z);
    assert(0 <= at < base.len() && is_flow(base[at], a, z));
    let after = recorded(entries, flow, datagram);
    assert(after == base.update(at, base[at].updated(flow.direction, datagram)));
    assert forall|i: int| 0 <= i < after.len() implies (#[trigger] after[i]).a_endpoint
        == base[i].a_endpoint && after[i].z_endpoint == base[i].z_endpoint by {}
    assert forall|i: int, j: int| 0 <= i < j < after.len() implies !is_flow(
        #[trigger] after[i],
        (#[trigger] after[j]).a_endpoint,
        after[j].z_endpoint,
    ) by {
        assert(!is_flow(base[i], base[j].a_endpoint, base[j].z_endpoint));
    }
    if b == a && y == z {
        lemma_found_at(after, at);
    } else if tracks(base, b, y) {
        let p = position(base, b, y);
        assert(is_flow(base[p], b, y));
        assert(after[p] == base[p]);
        lemma_found_at(after, p);
    } else if tracks(after, b, y) {
        let p = position(after, b, y);
        assert(is_flow(after[p], b, y));
        assert(is_flow(base[p], b, y));
    }
}

/// Whether `after` is `before` with `datagram` recorded for `flow`, said
/// flow by flow: the flow has its state, fresh if it had none, updated by the
/// datagram; every other flow is as it was; and there is one state more if
/// the flow was new.
pub open spec fn records(
    before: Seq<TcpConnection>,
    after: Seq<TcpConnection>,
    flow: Flow,
    datagram: TcpDatagram,
) -> bool {
    &&& distinct_flows(after)
    &&& after.len() == before.len() + if tracks(before, flow.a_endpoint, flow.z_endpoint) {
        0int
    } else {
        1int
    }
    &&& state_of(after, flow.a_endpoint, flow.z_endpoint) == Some(
        state_or_fresh(before, flow.a_endpoint, flow.z_endpoint).updated(
            flow.direction,
            datagram,
        ),
    )
    &&& same_except(before, after, flow.a_endpoint, flow.z_endpoint)
}

/// Whether `after` is `before` with the flow between `a` and `z` asked for,
/// said flow by flow: the flow has the state it had, or a fresh one; every
/// other flow is as it was; and there is one state more if the flow was new.
pub open spec fn holds_flow(
    before: Seq<TcpConnection>,
    after: Seq<TcpConnection>,
    a: Endpoint,
    z: Endpoint,
) -> bool {
    &&& distinct_flows(after)
    &&& after.len() == before.len() + if tracks(before, a, z) {
        0int
    } else {
        1int
    }
    &&& state_of(after, a, z) == Some(state_or_fresh(before, a, z))
    &&& same_except(before, after, a, z)
}

/// Whether `after` is `before` with the flow between `a` and `z` taken out,
/// said flow by flow: the flow has no state; every other flow is as it was;
/// and there is one state fewer if the flow was there.
pub open spec fn lacks_flow(
    before: Seq<TcpConnection>,
    after: Seq<TcpConnection>,
    a: Endpoint,
    z: Endpoint,
) -> bool {
    &&& distinct_flows(after)
    &&& after.len() == before.len() - if tracks(before, a, z) {
        1int
    } else {
        0int
    }
    &&& state_of(after, a, z) is None
    &&& same_except(before, after, a, z)
}

/// Recording a datagram, said flow by flow.
pub proof fn lemma_records(entries: Seq<TcpConnection>, flow: Flow, datagram: TcpDatagram)
    requires
        distinct_flows(entries),
    ensures
        records(entries, recorded(entries, flow, datagram), flow, datagram),
{
    let after = recorded(entries, flow, datagram);
    lemma_recorded(entries, flow, datagram, flow.a_endpoint, flow.z_endpoint);
    assert forall|b: Endpoint, y: Endpoint|
        !(b == flow.a_endpoint && y == flow.z_endpoint) implies #[trigger] state_of(after, b, y)
        == state_of(entries, b, y) by {
        lemma_recorded(entries, flow, datagram, b, y);
    }
}

/// Asking for a flow, said flow by flow.
pub proof fn lemma_holds_flow(entries: Seq<TcpConnection>, a: Endpoint, z: Endpoint)
    requires
        distinct_flows(entries),
    ensures
        holds_flow(entries, with_flow(entries, a, z), a, z),
{
    let after = with_flow(entries, a, z);
    lemma_with_flow(entries, a, z, a, z);
    assert forall|b: Endpoint, y: Endpoint| !(b == a && y == z) implies #[trigger] state_of(
        after,
        b,
        y,
    ) == state_of(entries, b, y) by {
        lemma_with_flow(entries, a, z, b, y);
    }
}

/// Taking a flow out, said flow by flow.
pub proof fn lemma_lacks_flow(entries: Seq<TcpConnection>, a: Endpoint, z: Endpoint)
    requires
        distinct_flows(entries),
    ensures
        lacks_flow(entries, without_flow(entries, a, z), a, z),
{
    let after = without_flow(entries, a, z);
    lemma_without_flow(entries, a, z, a, z);
    assert forall|b: Endpoint, y: Endpoint| !(b == a && y == z) implies #[trigger] state_of(
        after,
        b,
        y,
    ) == state_of(entries, b, y) by {
        lemma_without_flow(entries, a, z, b, y);
    }
}

} // verus!
