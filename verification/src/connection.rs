//! The state kept for one flow, and how a datagram changes it.

use vstd::prelude::*;
use vstd::string::*;
use crate::address::{Endpoint, Ipv4Address};
use crate::datagram::TcpDatagram;
use crate::flow::{flow_text, one_way_text, render_flow, render_one_way, Direction};
use crate::text::{append_decimal, decimal};

verus! {

/// The value of a directional SYN counter at which a warning is raised.
pub const SYN_THRESHOLD: u32 = 3;

/// `n` held in a `u64` counter, which stays at its maximum once reached.
pub open spec fn saturated_u64(n: int) -> u64 {
    if n > u64::MAX {
        u64::MAX
    } else {
        n as u64
    }
}

/// `n` held in a `u32` counter, which stays at its maximum once reached.
pub open spec fn saturated_u32(n: int) -> u32 {
    if n > u32::MAX {
        u32::MAX
    } else {
        n as u32
    }
}

/// Whether a SYN counter that has just been raised to `counter` calls for a
/// warning: only on reaching the threshold, never above it.
pub open spec fn warning_due(counter: u32) -> bool {
    counter == SYN_THRESHOLD
}

/// Decides whether a SYN counter that has just been raised to `counter`
/// calls for a warning.
pub fn syn_threshold_reached(counter: u32) -> (due: bool)
    ensures
        due == warning_due(counter),
{
    counter == SYN_THRESHOLD
}

/// The state of one flow. The endpoints are fixed at creation; the counters
/// only ever grow.
#[derive(Clone, Copy, Debug, PartialEq, Eq, Structural)]
pub struct TcpConnection {
    pub a_endpoint: Endpoint,
    pub z_endpoint: Endpoint,
    pub a_to_z_bytes: u64,
    pub z_to_a_bytes: u64,
    pub a_to_z_syn_counter: u32,
    pub z_to_a_syn_counter: u32,
    pub a_to_z_last_seq: u32,
    pub a_to_z_last_ack: u32,
    pub z_to_a_last_seq: u32,
    pub z_to_a_last_ack: u32,
}

/// One step in the life of a flow: a datagram and the direction it took.
pub type Event = (Direction, TcpDatagram);

/// The payload bytes that `events` carry in `direction`.
pub open spec fn payload_sum(events: Seq<Event>, direction: Direction) -> nat
    decreases events.len(),
{
    if events.len() == 0 {
        0
    } else {
        payload_sum(events.drop_last(), direction) + if events.last().0 == direction {
            events.last().1.bytes as nat
        } else {
            0
        }
    }
}

/// The number of `events` that travel in `direction`.
pub open spec fn count_in(events: Seq<Event>, direction: Direction) -> nat
    decreases events.len(),
{
    if events.len() == 0 {
        0
    } else {
        count_in(events.drop_last(), direction) + if events.last().0 == direction {
            1nat
        } else {
            0
        }
    }
}

impl TcpConnection {
    /// The state of a flow between `a` and `z` of which nothing was seen yet.
    pub open spec fn fresh(a: Endpoint, z: Endpoint) -> TcpConnection {
        TcpConnection {
            a_endpoint: a,
            z_endpoint: z,
            a_to_z_bytes: 0,
            z_to_a_bytes: 0,
            a_to_z_syn_counter: 0,
            z_to_a_syn_counter: 0,
            a_to_z_last_seq: 0,
            a_to_z_last_ack: 0,
            z_to_a_last_seq: 0,
            z_to_a_last_ack: 0,
        }
    }

    /// The payload bytes counted in `direction`.
    pub open spec fn bytes_in(self, direction: Direction) -> u64 {
        match direction {
            Direction::AToZ => self.a_to_z_bytes,
            Direction::ZToA => self.z_to_a_bytes,
        }
    }

    /// The SYN counter of `direction`.
    pub open spec fn syns_in(self, direction: Direction) -> u32 {
        match direction {
            Direction::AToZ => self.a_to_z_syn_counter,
            Direction::ZToA => self.z_to_a_syn_counter,
        }
    }

    /// The sequence number last seen in `direction`.
    pub open spec fn last_seq_in(self, direction: Direction) -> u32 {
        match direction {
            Direction::AToZ => self.a_to_z_last_seq,
            Direction::ZToA => self.z_to_a_last_seq,
        }
    }

    /// The acknowledgment number last seen in `direction`.
    pub open spec fn last_ack_in(self, direction: Direction) -> u32 {
        match direction {
            Direction::AToZ => self.a_to_z_last_ack,
            Direction::ZToA => self.z_to_a_last_ack,
        }
    }

    /// The state after `datagram` was seen travelling in `direction`: its
    /// payload is added to that direction's byte total, its sequence and
    /// acknowledgment numbers replace the last seen ones, and that
    /// direction's SYN counter goes up by one. The other direction and the
    /// endpoints stay as they are.
    pub open spec fn updated(self, direction: Direction, datagram: TcpDatagram) -> TcpConnection {
        match direction {
            Direction::AToZ => TcpConnection {
                a_to_z_bytes: saturated_u64(self.a_to_z_bytes + datagram.bytes),
                a_to_z_syn_counter: saturated_u32(self.a_to_z_syn_counter + 1),
                a_to_z_last_seq: datagram.seq_num,
                a_to_z_last_ack: datagram.ack_num,
                ..self
            },
            Direction::ZToA => TcpConnection {
                z_to_a_bytes: saturated_u64(self.z_to_a_bytes + datagram.bytes),
                z_to_a_syn_counter: saturated_u32(self.z_to_a_syn_counter + 1),
                z_to_a_last_seq: datagram.seq_num,
                z_to_a_last_ack: datagram.ack_num,
                ..self
            },
        }
    }

    /// The state after all of `events` were seen, in their order.
    pub open spec fn updated_all(self, events: Seq<Event>) -> TcpConnection
        decreases events.len(),
    {
        if events.len() == 0 {
            self
        } else {
            self.updated_all(events.drop_last()).updated(events.last().0, events.last().1)
        }
    }

    /// How many warnings about `direction` are raised while `events` are
    /// seen in their order, starting from this state.
    pub open spec fn warnings_raised(self, events: Seq<Event>, direction: Direction) -> nat
        decreases events.len(),
    {
        if events.len() == 0 {
            0
        } else {
            self.warnings_raised(events.drop_last(), direction) + if events.last().0 == direction
                && warning_due(self.updated_all(events).syns_in(direction)) {
                1nat
            } else {
                0
            }
        }
    }

    /// The text of the warning about `direction` at the current counter:
    /// the one-way flow, then the count of unanswered SYNs.
    pub open spec fn warning_text(self, direction: Direction) -> Seq<char> {
        let (from, to) = match direction {
            Direction::AToZ => (self.a_endpoint, self.z_endpoint),
            Direction::ZToA => (self.z_endpoint, self.a_endpoint),
        };
        one_way_text(from, to) + seq![':', ' '] + decimal(self.syns_in(direction) as nat)
            + " unanswered SYNs"@
    }

    /// A connection between `a_ip:a_port` and `z_ip:z_port` of which nothing
    /// was seen yet.
    pub fn new(a_ip: Ipv4Address, a_port: u16, z_ip: Ipv4Address, z_port: u16) -> (c:
        TcpConnection)
        ensures
            c == TcpConnection::fresh(
                Endpoint { ip: a_ip, port: a_port },
                Endpoint { ip: z_ip, port: z_port },
            ),
    {
        TcpConnection::between(
            Endpoint { ip: a_ip, port: a_port },
            Endpoint { ip: z_ip, port: z_port },
        )
    }

    /// A connection between the endpoints `a` and `z` of which nothing was
    /// seen yet.
    pub fn between(a: Endpoint, z: Endpoint) -> (c: TcpConnection)
        ensures
            c == TcpConnection::fresh(a, z),
    {
        TcpConnection {
            a_endpoint: a,
            z_endpoint: z,
            a_to_z_bytes: 0,
            z_to_a_bytes: 0,
            a_to_z_syn_counter: 0,
            z_to_a_syn_counter: 0,
            a_to_z_last_seq: 0,
            a_to_z_last_ack: 0,
            z_to_a_last_seq: 0,
            z_to_a_last_ack: 0,
        }
    }

    /// Records `datagram` as seen travelling in `direction` and returns that
    /// direction's SYN counter after the update.
    ///
    /// Every datagram recorded counts towards the SYN counter, whatever its
    /// flags: a caller that wants to count SYN segments only records only
    /// those for which `is_syn` holds.
    pub fn add(&mut self, direction: Direction, datagram: &TcpDatagram) -> (counter: u32)
        ensures
            *final(self) == old(self).updated(direction, *datagram),
            counter == final(self).syns_in(direction),
    {
        match direction {
            Direction::AToZ => {
                self.a_to_z_bytes = self.a_to_z_bytes.saturating_add(datagram.bytes as u64);
                self.a_to_z_syn_counter = self.a_to_z_syn_counter.saturating_add(1);
                self.a_to_z_last_seq = datagram.seq_num;
                self.a_to_z_last_ack = datagram.ack_num;
                self.a_to_z_syn_counter
            },
            Direction::ZToA => {
                self.z_to_a_bytes = self.z_to_a_bytes.saturating_add(datagram.bytes as u64);
                self.z_to_a_syn_counter = self.z_to_a_syn_counter.saturating_add(1);
                self.z_to_a_last_seq = datagram.seq_num;
                self.z_to_a_last_ack = datagram.ack_num;
                self.z_to_a_syn_counter
            },
        }
    }

    /// The payload bytes counted in `direction`.
    pub fn bytes(&self, direction: Direction) -> (n: u64)
        ensures
            n == self.bytes_in(direction),
    {
        match direction {
            Direction::AToZ => self.a_to_z_bytes,
            Direction::ZToA => self.z_to_a_bytes,
        }
    }

    /// The SYN counter of `direction`.
    pub fn syn_counter(&self, direction: Direction) -> (n: u32)
        ensures
            n == self.syns_in(direction),
    {
        match direction {
            Direction::AToZ => self.a_to_z_syn_counter,
            Direction::ZToA => self.z_to_a_syn_counter,
        }
    }

    /// The sequence number last seen in `direction`.
    pub fn last_seq(&self, direction: Direction) -> (n: u32)
        ensures
            n == self.last_seq_in(direction),
    {
        match direction {
            Direction::AToZ => self.a_to_z_last_seq,
            Direction::ZToA => self.z_to_a_last_seq,
        }
    }

    /// The acknowledgment number last seen in `direction`.
    pub fn last_ack(&self, direction: Direction) -> (n: u32)
        ensures
            n == self.last_ack_in(direction),
    {
        match direction {
            Direction::AToZ => self.a_to_z_last_ack,
            Direction::ZToA => self.z_to_a_last_ack,
        }
    }

    /// The canonical key `A_ip:A_port<->Z_ip:Z_port` of the flow.
    pub fn get_flow(&self) -> (s: String)
        ensures
            s@ == flow_text(self.a_endpoint, self.z_endpoint),
    {
        render_flow(self.a_endpoint, self.z_endpoint)
    }

    /// Both one-way renderings of the flow: A to Z first, then Z to A.
    pub fn get_flows(&self) -> (flows: Vec<String>)
        ensures
            flows.len() == 2,
            flows[0]@ == one_way_text(self.a_endpoint, self.z_endpoint),
            flows[1]@ == one_way_text(self.z_endpoint, self.a_endpoint),
    {
        let mut flows: Vec<String> = Vec::new();
        flows.push(self.get_a_z_flow());
        flows.push(self.get_z_a_flow());
        flows
    }

    /// The one-way rendering `A_ip:A_port->Z_ip:Z_port`.
    pub fn get_a_z_flow(&self) -> (s: String)
        ensures
            s@ == one_way_text(self.a_endpoint, self.z_endpoint),
    {
        render_one_way(self.a_endpoint, self.z_endpoint)
    }

    /// The one-way rendering `Z_ip:Z_port->A_ip:A_port`.
    pub fn get_z_a_flow(&self) -> (s: String)
        ensures
            s@ == one_way_text(self.z_endpoint, self.a_endpoint),
    {
        render_one_way(self.z_endpoint, self.a_endpoint)
    }

    /// The warning to log about `direction` if its SYN counter has just
    /// reached the threshold, and nothing otherwise.
    pub fn syn_warning(&self, direction: Direction) -> (warning: Option<String>)
        ensures
            warning is Some <==> warning_due(self.syns_in(direction)),
            warning matches Some(text) ==> text@ == self.warning_text(direction),
    {
        if self.syn_counter(direction) != SYN_THRESHOLD {
            return None;
        }
        let mut text = match direction {
            Direction::AToZ => self.get_a_z_flow(),
            Direction::ZToA => self.get_z_a_flow(),
        };
        proof {
            reveal_strlit(": ");
        }
        text.append(": ");
        append_decimal(&mut text, self.syn_counter(direction));
        text.append(" unanswered SYNs");
        assert(text@ =~= self.warning_text(direction));
        Some(text)
    }
}

/// An update leaves the endpoints and the other direction alone, and no
/// counter ever goes down.
pub proof fn lemma_update_preserves(
    c: TcpConnection,
    direction: Direction,
    datagram: TcpDatagram,
)
    ensures
        ({
            let r = c.updated(direction, datagram);
            let other = direction.opposite();
            &&& r.a_endpoint == c.a_endpoint
            &&& r.z_endpoint == c.z_endpoint
            &&& r.bytes_in(other) == c.bytes_in(other)
            &&& r.syns_in(other) == c.syns_in(other)
            &&& r.last_seq_in(other) == c.last_seq_in(other)
            &&& r.last_ack_in(other) == c.last_ack_in(other)
            &&& r.bytes_in(direction) >= c.bytes_in(direction)
            &&& r.syns_in(direction) >= c.syns_in(direction)
            &&& r.last_seq_in(direction) == datagram.seq_num
            &&& r.last_ack_in(direction) == datagram.ack_num
        }),
{
}

/// Whether `later` may be a later state of the flow of `earlier`: the
/// endpoints are the same and no counter is lower.
pub open spec fn grown_from(later: TcpConnection, earlier: TcpConnection) -> bool {
    &&& later.a_endpoint == earlier.a_endpoint
    &&& later.z_endpoint == earlier.z_endpoint
    &&& later.a_to_z_bytes >= earlier.a_to_z_bytes
    &&& later.z_to_a_bytes >= earlier.z_to_a_bytes
    &&& later.a_to_z_syn_counter >= earlier.a_to_z_syn_counter
    &&& later.z_to_a_syn_counter >= earlier.z_to_a_syn_counter
}

/// Through any run of datagrams a state keeps its endpoints, and none of its
/// counters ever goes down.
pub proof fn lemma_counters_never_fall(c: TcpConnection, events: Seq<Event>)
    ensures
        grown_from(c.updated_all(events), c),
    decreases events.len(),
{
    if events.len() > 0 {
        lemma_counters_never_fall(c, events.drop_last());
    }
}

/// After any run of datagrams, in whatever order the two directions were
/// mixed, each direction's byte total is the total before plus the payload
/// bytes that travelled in that direction, and its SYN counter is the counter
/// before plus the number of datagrams that did; each stays at the largest
/// value its counter can hold once that is reached. The endpoints are those
/// of the start.
pub proof fn lemma_counters_after_events(
    c: TcpConnection,
    events: Seq<Event>,
    direction: Direction,
)
    ensures
        c.updated_all(events).bytes_in(direction) == saturated_u64(
            c.bytes_in(direction) + payload_sum(events, direction),
        ),
        c.updated_all(events).syns_in(direction) == saturated_u32(
            c.syns_in(direction) + count_in(events, direction),
        ),
        c.updated_all(events).a_endpoint == c.a_endpoint,
        c.updated_all(events).z_endpoint == c.z_endpoint,
    decreases events.len(),
{
    if events.len() > 0 {
        lemma_counters_after_events(c, events.drop_last(), direction);
    }
}

/// For a flow first seen with this run of datagrams: as long as the totals
/// fit their counters, a direction's byte total is the sum of the payload
/// bytes that travelled in it, and its SYN counter is the number of
/// datagrams that did.
pub proof fn lemma_fresh_counters(
    a: Endpoint,
    z: Endpoint,
    events: Seq<Event>,
    direction: Direction,
)
    ensures
        payload_sum(events, direction) <= u64::MAX ==> TcpConnection::fresh(a, z).updated_all(
            events,
        ).bytes_in(direction) == payload_sum(events, direction),
        count_in(events, direction) <= u32::MAX ==> TcpConnection::fresh(a, z).updated_all(
            events,
        ).syns_in(direction) == count_in(events, direction),
{
    lemma_counters_after_events(TcpConnection::fresh(a, z), events, direction);
}

/// Over any run of datagrams a direction raises exactly one warning if its
/// SYN counter starts below the threshold and the run carries it to the
/// threshold or beyond, and none otherwise: going on to 4, 5 and further
/// raises nothing more.
pub proof fn lemma_one_warning(c: TcpConnection, events: Seq<Event>, direction: Direction)
    ensures
        c.warnings_raised(events, direction) == if c.syns_in(direction) < SYN_THRESHOLD
            && c.syns_in(direction) + count_in(events, direction) >= SYN_THRESHOLD {
            1nat
        } else {
            0nat
        },
    decreases events.len(),
{
    if events.len() > 0 {
        lemma_one_warning(c, events.drop_last(), direction);
        lemma_counters_after_events(c, events.drop_last(), direction);
        lemma_counters_after_events(c, events, direction);
    }
}

} // verus!
