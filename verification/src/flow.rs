//! Flow identity: the canonical, direction-independent name of a
//! conversation, and the direction in which one datagram travels in it.

use vstd::prelude::*;
use vstd::string::*;
use crate::address::{
    endpoint_text, lemma_endpoint_text_injective, lemma_endpoint_then_mark, Endpoint, Ipv4Address,
};
use crate::datagram::TcpDatagram;

verus! {

/// The direction of a datagram within its flow. Endpoint A is the remote
/// peer and endpoint Z the local host whenever only one of the two
/// addresses is local.
#[derive(Clone, Copy, Debug, PartialEq, Eq, Structural, Hash)]
pub enum Direction {
    /// Sent by endpoint A to endpoint Z.
    AToZ,
    /// Sent by endpoint Z to endpoint A.
    ZToA,
}

impl Direction {
    /// The other direction.
    pub open spec fn opposite(self) -> Direction {
        match self {
            Direction::AToZ => Direction::ZToA,
            Direction::ZToA => Direction::AToZ,
        }
    }

    /// The other direction.
    pub fn flip(&self) -> (d: Direction)
        ensures
            d == self.opposite(),
    {
        match self {
            Direction::AToZ => Direction::ZToA,
            Direction::ZToA => Direction::AToZ,
        }
    }
}

/// The identity of a flow as resolved for one datagram: the two canonical
/// endpoints and the direction in which the datagram travels between them.
#[derive(Clone, Copy, Debug, PartialEq, Eq, Structural, Hash)]
pub struct Flow {
    pub a_endpoint: Endpoint,
    pub z_endpoint: Endpoint,
    pub direction: Direction,
}

/// The canonical key `A_ip:A_port<->Z_ip:Z_port` of the flow between `a` and `z`.
pub open spec fn flow_text(a: Endpoint, z: Endpoint) -> Seq<char> {
    endpoint_text(a) + seq!['<', '-', '>'] + endpoint_text(z)
}

/// The one-way rendering `from_ip:from_port->to_ip:to_port`.
pub open spec fn one_way_text(from: Endpoint, to: Endpoint) -> Seq<char> {
    endpoint_text(from) + seq!['-', '>'] + endpoint_text(to)
}

/// The flow identity of `datagram` as seen from the host `local`.
///
/// A datagram addressed to the local host travels from A to Z, with its
/// source as A. Otherwise a datagram sent by the local host travels from Z
/// to A, with its destination as A. A datagram that does not involve the
/// local host has no identity.
pub open spec fn resolved(datagram: TcpDatagram, local: Ipv4Address) -> Option<Flow> {
    if local == datagram.dst_ip {
        Some(
            Flow {
                a_endpoint: datagram.source(),
                z_endpoint: datagram.destination(),
                direction: Direction::AToZ,
            },
        )
    } else if local == datagram.src_ip {
        Some(
            Flow {
                a_endpoint: datagram.destination(),
                z_endpoint: datagram.source(),
                direction: Direction::ZToA,
            },
        )
    } else {
        None
    }
}

/// Resolves the flow identity of `datagram` as seen from the host `local`.
pub fn resolve(datagram: &TcpDatagram, local: Ipv4Address) -> (flow: Option<Flow>)
    ensures
        flow == resolved(*datagram, local),
        flow is Some <==> datagram.involves_address(local),
{
    if local == datagram.dst_ip {
        Some(
            Flow {
                a_endpoint: datagram.source_endpoint(),
                z_endpoint: datagram.destination_endpoint(),
                direction: Direction::AToZ,
            },
        )
    } else if local == datagram.src_ip {
        Some(
            Flow {
                a_endpoint: datagram.destination_endpoint(),
                z_endpoint: datagram.source_endpoint(),
                direction: Direction::ZToA,
            },
        )
    } else {
        None
    }
}

impl Flow {
    /// The canonical key of the flow.
    pub open spec fn key_text(self) -> Seq<char> {
        flow_text(self.a_endpoint, self.z_endpoint)
    }

    /// The endpoint that sent the datagram this identity was resolved for.
    pub open spec fn sender(self) -> Endpoint {
        match self.direction {
            Direction::AToZ => self.a_endpoint,
            Direction::ZToA => self.z_endpoint,
        }
    }

    /// The endpoint that received the datagram this identity was resolved for.
    pub open spec fn receiver(self) -> Endpoint {
        match self.direction {
            Direction::AToZ => self.z_endpoint,
            Direction::ZToA => self.a_endpoint,
        }
    }

    /// The canonical key `A_ip:A_port<->Z_ip:Z_port`.
    pub fn key(&self) -> (s: String)
        ensures
            s@ == self.key_text(),
    {
        render_flow(self.a_endpoint, self.z_endpoint)
    }
}

/// Renders the canonical key `A_ip:A_port<->Z_ip:Z_port`.
pub fn render_flow(a: Endpoint, z: Endpoint) -> (s: String)
    ensures
        s@ == flow_text(a, z),
{
    proof {
        reveal_strlit("<->");
    }
    let mut s = String::new();
    a.append_to(&mut s);
    s.append("<->");
    z.append_to(&mut s);
    assert(s@ =~= flow_text(a, z));
    s
}

/// Renders the one-way form `from_ip:from_port->to_ip:to_port`.
pub fn render_one_way(from: Endpoint, to: Endpoint) -> (s: String)
    ensures
        s@ == one_way_text(from, to),
{
    proof {
        reveal_strlit("->");
    }
    let mut s = String::new();
    from.append_to(&mut s);
    s.append("->");
    to.append_to(&mut s);
    assert(s@ =~= one_way_text(from, to));
    s
}

/// Different flows have different canonical keys: a key names one pair of
/// endpoints only.
pub proof fn lemma_flow_text_injective(a1: Endpoint, z1: Endpoint, a2: Endpoint, z2: Endpoint)
    requires
        flow_text(a1, z1) == flow_text(a2, z2),
    ensures
        a1 == a2,
        z1 == z2,
{
    let rest1 = seq!['-', '>'] + endpoint_text(z1);
    let rest2 = seq!['-', '>'] + endpoint_text(z2);
    assert(flow_text(a1, z1) =~= endpoint_text(a1) + seq!['<'] + rest1);
    assert(flow_text(a2, z2) =~= endpoint_text(a2) + seq!['<'] + rest2);
    lemma_endpoint_then_mark(a1, rest1, a2, rest2, '<');
    assert(endpoint_text(z1) =~= rest1.subrange(2, rest1.len() as int));
    assert(endpoint_text(z2) =~= rest2.subrange(2, rest2.len() as int));
    lemma_endpoint_text_injective(z1, z2);
}

/// Different ordered pairs of endpoints have different one-way renderings.
pub proof fn lemma_one_way_text_injective(
    from1: Endpoint,
    to1: Endpoint,
    from2: Endpoint,
    to2: Endpoint,
)
    requires
        one_way_text(from1, to1) == one_way_text(from2, to2),
    ensures
        from1 == from2,
        to1 == to2,
{
    let rest1 = seq!['>'] + endpoint_text(to1);
    let rest2 = seq!['>'] + endpoint_text(to2);
    assert(one_way_text(from1, to1) =~= endpoint_text(from1) + seq!['-'] + rest1);
    assert(one_way_text(from2, to2) =~= endpoint_text(from2) + seq!['-'] + rest2);
    lemma_endpoint_then_mark(from1, rest1, from2, rest2, '-');
    assert(endpoint_text(to1) =~= rest1.subrange(1, rest1.len() as int));
    assert(endpoint_text(to2) =~= rest2.subrange(1, rest2.len() as int));
    lemma_endpoint_text_injective(to1, to2);
}

/// Two datagrams that are reverses of each other resolve, relative to the
/// same local host, to the same canonical endpoints and so to the same key,
/// and they travel in opposite directions. Neither resolves if the other
/// does not.
///
/// Left out is the one situation in which it cannot hold: both addresses are
/// the local host's and the ports differ, where each datagram's own source
/// becomes endpoint A.
pub proof fn lemma_reverse_resolves_to_same_key(datagram: TcpDatagram, local: Ipv4Address)
    requires
        datagram.src_ip == local && datagram.dst_ip == local ==> datagram.src_port
            == datagram.dst_port,
    ensures
        resolved(datagram, local) is Some <==> resolved(datagram.reversed(), local) is Some,
        resolved(datagram, local) matches Some(forth) ==> {
            &&& resolved(datagram.reversed(), local) matches Some(back)
            &&& back.a_endpoint == forth.a_endpoint
            &&& back.z_endpoint == forth.z_endpoint
            &&& back.key_text() == forth.key_text()
            &&& (datagram.src_ip != datagram.dst_ip ==> back.direction
                == forth.direction.opposite())
        },
{
}

} // verus!
