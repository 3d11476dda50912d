//! A model of the key-value store, and the law that an update carried
//! through against it leaves the store holding what the flow table in memory
//! would hold.
//!
//! The model is that of a store of hashes: what stands under one key is a
//! set of fields; a number field that was never written counts as zero;
//! writing to a key that holds nothing creates it.

use vstd::prelude::*;
use crate::address::endpoint_text;
use crate::connection::{warning_due, TcpConnection};
use crate::datagram::TcpDatagram;
use crate::entries::is_flow;
use crate::flow::Flow;
use crate::tcp_db::Observation;
use crate::tcpdb::{
    advanced, request_of, Field, RequestModel, Stage, StepModel, StoreReply, StoreUpdate,
};

verus! {

/// What a store holds under one key: the two endpoints as texts, and the
/// number fields. The store's numbers are 64-bit signed integers.
pub ghost struct Stored {
    pub a_endpoint: Seq<char>,
    pub z_endpoint: Seq<char>,
    pub numbers: Map<Field, int>,
}

/// What a store holds under a key right after it was created: the endpoints
/// as given, every number zero.
pub open spec fn created_as(a_endpoint: Seq<char>, z_endpoint: Seq<char>) -> Stored {
    Stored { a_endpoint, z_endpoint, numbers: Map::new(|field: Field| true, |field: Field| 0int) }
}

/// What a store holds under a key that holds nothing, as far as a write to
/// one of its number fields sees it.
pub open spec fn blank() -> Stored {
    created_as(Seq::empty(), Seq::empty())
}

/// Whether `n` is a number that the store can hold.
pub open spec fn storable(n: int) -> bool {
    i64::MIN <= n <= i64::MAX
}

/// What stands under a request's key once the store, which held `held`
/// there, has served the request. A request that fails changes nothing.
pub open spec fn held_after(held: Option<Stored>, request: RequestModel) -> Option<Stored> {
    let was = match held {
        Some(stored) => stored,
        None => blank(),
    };
    match request {
        RequestModel::Create { a_endpoint, z_endpoint, .. } => Some(
            created_as(a_endpoint, z_endpoint),
        ),
        RequestModel::IncrementField { field, by, .. } => if storable(was.numbers[field] + by) {
            Some(Stored { numbers: was.numbers.insert(field, was.numbers[field] + by), ..was })
        } else {
            held
        },
        RequestModel::SetField { field, value, .. } => Some(
            Stored { numbers: was.numbers.insert(field, value as int), ..was },
        ),
        _ => held,
    }
}

/// What the store, which holds `held` under a request's key, answers to the
/// request. Listing keys is not a request about one key and has no answer
/// here.
pub open spec fn reply_to(held: Option<Stored>, request: RequestModel) -> StoreReply {
    let was = match held {
        Some(stored) => stored,
        None => blank(),
    };
    match request {
        RequestModel::Exists { .. } => if held is Some {
            StoreReply::Found
        } else {
            StoreReply::Missing
        },
        RequestModel::Create { .. } => StoreReply::Done,
        RequestModel::IncrementField { field, by, .. } => if storable(was.numbers[field] + by) {
            StoreReply::Value((was.numbers[field] + by) as i64)
        } else {
            StoreReply::Failed
        },
        RequestModel::SetField { .. } => StoreReply::Done,
        RequestModel::GetField { field, .. } => if held is Some {
            StoreReply::Value(was.numbers[field] as i64)
        } else {
            StoreReply::Missing
        },
        RequestModel::ListKeys => StoreReply::Failed,
    }
}

/// Whether what the store holds under a flow's key stands for the state
/// `c`: the same endpoints, as texts, and the same numbers.
pub open spec fn stands_for(stored: Stored, c: TcpConnection) -> bool {
    &&& stored.a_endpoint == endpoint_text(c.a_endpoint)
    &&& stored.z_endpoint == endpoint_text(c.z_endpoint)
    &&& stored.numbers[Field::AToZBytes] == c.a_to_z_bytes
    &&& stored.numbers[Field::ZToABytes] == c.z_to_a_bytes
    &&& stored.numbers[Field::AToZSynCounter] == c.a_to_z_syn_counter
    &&& stored.numbers[Field::ZToASynCounter] == c.z_to_a_syn_counter
    &&& stored.numbers[Field::AToZLastSeq] == c.a_to_z_last_seq
    &&& stored.numbers[Field::AToZLastAck] == c.a_to_z_last_ack
    &&& stored.numbers[Field::ZToALastSeq] == c.z_to_a_last_seq
    &&& stored.numbers[Field::ZToALastAck] == c.z_to_a_last_ack
}

/// The update carried through against the store: `request` is served by
/// the store, the reply takes the update one step further, and so on, for
/// `steps` requests at most. The result is what the store then holds under
/// the flow's key, and what the update stopped with.
pub open spec fn carried(
    update: StoreUpdate,
    request: RequestModel,
    held: Option<Stored>,
    steps: nat,
) -> (Option<Stored>, Option<Observation>)
    decreases steps,
{
    if steps == 0 {
        (held, None)
    } else {
        let next = advanced(update, reply_to(held, request));
        match next.1 {
            StepModel::Send(following) => carried(
                next.0,
                following,
                held_after(held, request),
                (steps - 1) as nat,
            ),
            StepModel::Stop(seen) => (held_after(held, request), seen),
        }
    }
}

/// The most requests that one update sends.
pub open spec fn most_requests() -> nat {
    6
}

/// An update carried through against a store that answers as a store of
/// hashes does leaves under the flow's key what the flow table in memory
/// would hold after recording the datagram, and stops with the observation
/// that the table in memory would report.
///
/// This holds while the numbers stay within what both sides can count: the
/// direction's byte total within the store's 64-bit signed numbers, and the
/// direction's SYN counter below the largest 32-bit value.
pub proof fn lemma_store_agrees_with_memory(
    flow: Flow,
    datagram: TcpDatagram,
    held: Option<Stored>,
    c: TcpConnection,
)
    requires
        is_flow(c, flow.a_endpoint, flow.z_endpoint),
        match held {
            Some(stored) => stands_for(stored, c),
            None => c == TcpConnection::fresh(flow.a_endpoint, flow.z_endpoint),
        },
        c.bytes_in(flow.direction) + datagram.bytes <= i64::MAX,
        c.syns_in(flow.direction) < u32::MAX,
    ensures
        ({
            let begun = StoreUpdate { flow, datagram, stage: Stage::Probing, created: false };
            let first = request_of(flow, datagram, Stage::Probing)->0;
            let end = carried(begun, first, held, most_requests());
            let after = c.updated(flow.direction, datagram);
            &&& end.0 matches Some(stored) && stands_for(stored, after)
            &&& end.1 == Some(
                Observation {
                    flow,
                    created: held is None,
                    syn_counter: after.syns_in(flow.direction),
                    warning: warning_due(after.syns_in(flow.direction)),
                },
            )
        }),
{
    reveal_with_fuel(carried, 7);
    let begun = StoreUpdate { flow, datagram, stage: Stage::Probing, created: false };
    let first = request_of(flow, datagram, Stage::Probing)->0;
    let end = carried(begun, first, held, most_requests());
    let after = c.updated(flow.direction, datagram);
    assert(end.0 is Some);
    assert(stands_for(end.0->0, after));
}

} // verus!
