//! One step of ingestion: what becomes of a captured datagram.
//!
//! The capture loop itself lives with the caller. For every datagram it has
//! decoded it takes the table exclusively and calls `process`, which filters,
//! resolves and records.

use vstd::prelude::*;
use vstd::string::*;
use crate::address::{address_text, Ipv4Address};
use crate::bounded::{makes_room, making_room, order_after, with_room, BoundedTcpDb};
use crate::connection::TcpConnection;
use crate::datagram::{decoded, TcpDatagram};
use crate::entries::{ingested, position, recorded, records};
use crate::flow::{resolve, resolved};
use crate::tcp_db::{observed, Observation, TcpDb};
use crate::tcpdb::{request_of, Stage, StoreRequest, StoreUpdate, TcpDatabase};
use crate::text::{contains, occurs_in};
use crate::wire::{ipv4_packet, ipv4_protocol, ipv4_protocol_field, MINIMUM_HEADER};

verus! {

/// The number that the IPv4 header gives for TCP as the next protocol.
pub const IP_PROTOCOL_TCP: u8 = 6;

/// The record of the TCP segment in the link-layer payload `frame`, if the
/// payload is long enough for an IPv4 header that names TCP as its protocol
/// and the packet's own payload is long enough for a TCP header.
pub open spec fn parsed(frame: Seq<u8>) -> Option<TcpDatagram> {
    if frame.len() >= MINIMUM_HEADER && ipv4_protocol_field(frame) == IP_PROTOCOL_TCP {
        decoded(frame)
    } else {
        None
    }
}

/// Whether an IPv4 protocol number stands for TCP.
pub fn is_tcp(protocol: u8) -> (tcp: bool)
    ensures
        tcp == (protocol == IP_PROTOCOL_TCP),
{
    protocol == IP_PROTOCOL_TCP
}

/// Reads the record of a TCP/IPv4 datagram from the payload of a link-layer
/// frame. Anything that is not IPv4 carrying TCP gives nothing.
pub fn parse_tcp_ipv4_datagram(frame: &[u8]) -> (datagram: Option<TcpDatagram>)
    ensures
        datagram == parsed(frame@),
{
    match ipv4_packet(frame) {
        Some(packet) => {
            if is_tcp(ipv4_protocol(&packet)) {
                TcpDatagram::new(packet)
            } else {
                None
            }
        },
        None => None,
    }
}

/// What became of one datagram.
#[derive(Clone, Copy, Debug, PartialEq, Eq, Structural)]
pub enum Outcome {
    /// Held back by the address filter, or because it belongs to the
    /// backing store's own traffic. Nothing was counted or changed.
    Filtered,
    /// Counted, but it does not involve the local host: the table is unchanged.
    Dropped,
    /// Counted and recorded in the table.
    Recorded(Observation),
}

/// Whether the address filter lets `datagram` through: the filter `*` lets
/// everything through, any other lets through what has the filter's text
/// somewhere in the rendering of its source or destination address.
pub open spec fn passes_filter(filter: Seq<char>, datagram: TcpDatagram) -> bool {
    filter == "*"@ || occurs_in(filter, address_text(datagram.src_ip)) || occurs_in(
        filter,
        address_text(datagram.dst_ip),
    )
}

/// Whether `datagram` belongs to the traffic of a backing store that
/// listens on `store_port`.
pub open spec fn own_traffic(store_port: Option<u16>, datagram: TcpDatagram) -> bool {
    store_port matches Some(port) && datagram.involves_port(port)
}

/// Whether `datagram` gets past both filters.
pub open spec fn admitted(
    filter: Seq<char>,
    store_port: Option<u16>,
    datagram: TcpDatagram,
) -> bool {
    passes_filter(filter, datagram) && !own_traffic(store_port, datagram)
}

/// Decides whether the address filter lets `datagram` through.
pub fn filter_admits(ipv4_filter: &str, datagram: &TcpDatagram) -> (passes: bool)
    ensures
        passes == passes_filter(ipv4_filter@, *datagram),
{
    proof {
        reveal_strlit("*");
    }
    if ipv4_filter.unicode_len() == 1 && ipv4_filter.get_char(0) == '*' {
        assert(ipv4_filter@ =~= "*"@);
        return true;
    }
    let source = datagram.src_ip.to_text();
    if contains(source.as_str(), ipv4_filter) {
        return true;
    }
    let destination = datagram.dst_ip.to_text();
    contains(destination.as_str(), ipv4_filter)
}

/// Decides whether `datagram` belongs to the traffic of a backing store
/// that listens on `store_port`.
pub fn is_own_traffic(store_port: Option<u16>, datagram: &TcpDatagram) -> (own: bool)
    ensures
        own == own_traffic(store_port, *datagram),
{
    match store_port {
        Some(port) => datagram.src_port == port || datagram.dst_port == port,
        None => false,
    }
}

/// The count after one more datagram was counted: it stays at its largest
/// value once it has reached it.
pub open spec fn counted(count: u32) -> u32 {
    if count == u32::MAX {
        u32::MAX
    } else {
        (count + 1) as u32
    }
}

/// Takes one captured datagram through ingestion.
///
/// A datagram that the address filter holds back, or that has the backing
/// store's port at either end, is never tracked: table and count stay as
/// they are. Every other datagram is counted and handed to the table, which
/// records it if it involves the local host and drops it if not. The count
/// stays at its largest value once it has reached it.
pub fn process(
    ipv4_filter: &str,
    store_port: Option<u16>,
    tcp_db: &mut TcpDb,
    count: &mut u32,
    datagram: TcpDatagram,
) -> (outcome: Outcome)
    requires
        old(tcp_db).wf(),
    ensures
        final(tcp_db).wf(),
        final(tcp_db).local() == old(tcp_db).local(),
        own_traffic(store_port, datagram) ==> outcome is Filtered,
        outcome is Filtered <==> !admitted(ipv4_filter@, store_port, datagram),
        outcome is Dropped <==> admitted(ipv4_filter@, store_port, datagram)
            && !datagram.involves_address(old(tcp_db).local()),
        *final(count) == if outcome is Filtered {
            *old(count)
        } else {
            counted(*old(count))
        },
        final(tcp_db)@ == if outcome is Filtered {
            old(tcp_db)@
        } else {
            ingested(old(tcp_db)@, old(tcp_db).local(), datagram)
        },
        match outcome {
            Outcome::Recorded(o) => {
                &&& observed(old(tcp_db)@, final(tcp_db)@, old(tcp_db).local(), datagram, o)
                &&& records(old(tcp_db)@, final(tcp_db)@, o.flow, datagram)
                &&& final(tcp_db).latest_position() == Some(
                    position(final(tcp_db)@, o.flow.a_endpoint, o.flow.z_endpoint),
                )
            },
            _ => final(tcp_db)@ == old(tcp_db)@ && final(tcp_db).latest_position() == old(
                tcp_db,
            ).latest_position(),
        },
{
    if !filter_admits(ipv4_filter, &datagram) || is_own_traffic(store_port, &datagram) {
        return Outcome::Filtered;
    }
    let seen = tcp_db.add(datagram);
    *count = count.saturating_add(1);
    match seen {
        Some(observation) => Outcome::Recorded(observation),
        None => Outcome::Dropped,
    }
}

/// Starts the update of a network-attached store for one captured
/// datagram, if the datagram is to be tracked: it gets past the address
/// filter, it is not the store's own traffic, and it involves the host
/// `local`. The first request then asks whether the datagram's flow has a
/// state.
pub fn begin_store_update(
    ipv4_filter: &str,
    database: &TcpDatabase,
    local: Ipv4Address,
    datagram: &TcpDatagram,
) -> (start: Option<(StoreUpdate, StoreRequest)>)
    ensures
        start is Some <==> admitted(ipv4_filter@, Some(database.port), *datagram)
            && datagram.involves_address(local),
        start matches Some(begun) ==> {
            &&& resolved(*datagram, local) matches Some(flow)
            &&& begun.0 == (StoreUpdate {
                flow,
                datagram: *datagram,
                stage: Stage::Probing,
                created: false,
            })
            &&& Some(begun.1@) == request_of(flow, *datagram, Stage::Probing)
        },
{
    if !filter_admits(ipv4_filter, datagram) || database.carries_own_traffic(datagram) {
        return None;
    }
    match resolve(datagram, local) {
        Some(flow) => Some(database.begin(flow, *datagram)),
        None => None,
    }
}

/// Takes one captured datagram through ingestion into a table with a limit
/// on the number of flows.
///
/// Filtering and counting are those of `process`. A datagram that is
/// recorded for a new flow in a full table takes the place of the flow first
/// seen longest ago, whose state is handed back.
pub fn process_bounded(
    ipv4_filter: &str,
    store_port: Option<u16>,
    table: &mut BoundedTcpDb,
    count: &mut u32,
    datagram: TcpDatagram,
) -> (r: (Outcome, Option<TcpConnection>))
    requires
        old(table).wf(),
    ensures
        final(table).wf(),
        final(table).local() == old(table).local(),
        final(table).limit() == old(table).limit(),
        final(table)@.len() <= final(table).limit(),
        own_traffic(store_port, datagram) ==> r.0 is Filtered,
        r.0 is Filtered <==> !admitted(ipv4_filter@, store_port, datagram),
        r.0 is Dropped <==> admitted(ipv4_filter@, store_port, datagram)
            && !datagram.involves_address(old(table).local()),
        *final(count) == if r.0 is Filtered {
            *old(count)
        } else {
            counted(*old(count))
        },
        match r.0 {
            Outcome::Recorded(o) => {
                let flow = resolved(datagram, old(table).local())->0;
                let a = flow.a_endpoint;
                let z = flow.z_endpoint;
                let room = with_room(old(table)@, old(table).order(), old(table).limit(), a, z);
                &&& makes_room(old(table)@, old(table).order(), old(table).limit(), a, z, room)
                &&& final(table)@ == recorded(room, flow, datagram)
                &&& records(room, final(table)@, flow, datagram)
                &&& final(table).order() == order_after(
                    old(table).order(),
                    old(table)@,
                    old(table).limit(),
                    a,
                    z,
                )
                &&& r.1 == making_room(old(table)@, old(table).order(), old(table).limit(), a, z)
                &&& observed(room, final(table)@, old(table).local(), datagram, o)
            },
            _ => final(table)@ == old(table)@ && final(table).order() == old(table).order()
                && r.1 is None,
        },
{
    if !filter_admits(ipv4_filter, &datagram) || is_own_traffic(store_port, &datagram) {
        proof {
            table.lemma_wf();
        }
        return (Outcome::Filtered, None);
    }
    let done = table.add(datagram);
    *count = count.saturating_add(1);
    match done.seen {
        Some(observation) => (Outcome::Recorded(observation), done.evicted),
        None => (Outcome::Dropped, done.evicted),
    }
}

} // verus!
