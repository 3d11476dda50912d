//! The record of one captured TCP/IPv4 datagram.

use vstd::prelude::*;
use pnet::packet::ipv4::Ipv4Packet;
use crate::address::{Endpoint, Ipv4Address};
use crate::wire::{
    ipv4_bytes, ipv4_destination, ipv4_destination_field, ipv4_payload, ipv4_payload_field,
    ipv4_source, ipv4_source_field, tcp_acknowledgement, tcp_acknowledgement_field,
    tcp_data_offset, tcp_data_offset_field, tcp_destination, tcp_destination_field, tcp_flags,
    tcp_flags_field, tcp_packet, tcp_payload, tcp_payload_field, tcp_sequence, tcp_sequence_field,
    tcp_source, tcp_source_field, MINIMUM_HEADER,
};

verus! {

/// The flag byte of a segment that carries SYN and nothing else.
pub const SYN_ONLY: u8 = 2;

/// What the tracker reads of one captured TCP/IPv4 datagram.
#[derive(Clone, Copy, Debug, PartialEq, Eq, Structural, Hash)]
pub struct TcpDatagram {
    pub src_ip: Ipv4Address,
    pub src_port: u16,
    pub dst_ip: Ipv4Address,
    pub dst_port: u16,
    /// Length of the TCP payload.
    pub bytes: u32,
    pub ack_num: u32,
    pub seq_num: u32,
    /// The raw TCP flag bits.
    pub flags: u8,
    /// The header length field, in 32-bit words.
    pub offset: u8,
}

/// A payload length as the record holds it: its low 32 bits.
pub open spec fn payload_length(length: nat) -> u32 {
    (length % 0x1_0000_0000) as u32
}

/// The record of the TCP segment in the IPv4 packet `packet`, field by
/// field as the decoder reads them; none if the packet's payload is too
/// short to hold a TCP header.
pub open spec fn decoded(packet: Seq<u8>) -> Option<TcpDatagram> {
    let segment = ipv4_payload_field(packet);
    if segment.len() >= MINIMUM_HEADER {
        Some(
            TcpDatagram {
                src_ip: ipv4_source_field(packet),
                src_port: tcp_source_field(segment),
                dst_ip: ipv4_destination_field(packet),
                dst_port: tcp_destination_field(segment),
                bytes: payload_length(tcp_payload_field(segment).len()),
                ack_num: tcp_acknowledgement_field(segment),
                seq_num: tcp_sequence_field(segment),
                flags: tcp_flags_field(segment),
                offset: tcp_data_offset_field(segment),
            },
        )
    } else {
        None
    }
}

impl TcpDatagram {
    /// Reads the record of the TCP segment that the IPv4 packet carries.
    /// There is none if the packet's payload is too short for a TCP header.
    pub fn new(packet: Ipv4Packet) -> (datagram: Option<TcpDatagram>)
        ensures
            datagram == decoded(ipv4_bytes(packet)),
    {
        let src_ip = ipv4_source(&packet);
        let dst_ip = ipv4_destination(&packet);
        let segment = ipv4_payload(&packet);
        match tcp_packet(segment) {
            None => None,
            Some(tcp) => Some(
                TcpDatagram::from_parts(
                    Endpoint { ip: src_ip, port: tcp_source(&tcp) },
                    Endpoint { ip: dst_ip, port: tcp_destination(&tcp) },
                    tcp_payload(&tcp).len(),
                    tcp_sequence(&tcp),
                    tcp_acknowledgement(&tcp),
                    tcp_flags(&tcp),
                    tcp_data_offset(&tcp),
                ),
            ),
        }
    }

    /// The record of a segment sent from `source` to `destination` with a
    /// payload of `payload_len` bytes.
    pub fn from_parts(
        source: Endpoint,
        destination: Endpoint,
        payload_len: usize,
        seq_num: u32,
        ack_num: u32,
        flags: u8,
        offset: u8,
    ) -> (datagram: TcpDatagram)
        ensures
            datagram == (TcpDatagram {
                src_ip: source.ip,
                src_port: source.port,
                dst_ip: destination.ip,
                dst_port: destination.port,
                bytes: payload_length(payload_len as nat),
                ack_num,
                seq_num,
                flags,
                offset,
            }),
    {
        TcpDatagram {
            src_ip: source.ip,
            src_port: source.port,
            dst_ip: destination.ip,
            dst_port: destination.port,
            bytes: ((payload_len as u64) % 0x1_0000_0000) as u32,
            ack_num,
            seq_num,
            flags,
            offset,
        }
    }

    /// The endpoint that sent the datagram.
    pub open spec fn source(self) -> Endpoint {
        Endpoint { ip: self.src_ip, port: self.src_port }
    }

    /// The endpoint that the datagram was sent to.
    pub open spec fn destination(self) -> Endpoint {
        Endpoint { ip: self.dst_ip, port: self.dst_port }
    }

    /// The same datagram travelling the other way: source and destination
    /// exchanged, everything else kept.
    pub open spec fn reversed(self) -> TcpDatagram {
        TcpDatagram {
            src_ip: self.dst_ip,
            src_port: self.dst_port,
            dst_ip: self.src_ip,
            dst_port: self.src_port,
            ..self
        }
    }

    /// Whether `ip` is the sender's or the receiver's address.
    pub open spec fn involves_address(self, ip: Ipv4Address) -> bool {
        self.src_ip == ip || self.dst_ip == ip
    }

    /// Whether `port` is the sender's or the receiver's port.
    pub open spec fn involves_port(self, port: u16) -> bool {
        self.src_port == port || self.dst_port == port
    }

    /// The header length field.
    pub fn get_offset(&self) -> (offset: u8)
        ensures
            offset == self.offset,
    {
        self.offset
    }

    /// Whether the segment carries the SYN flag and no other.
    pub fn is_syn(&self) -> (syn: bool)
        ensures
            syn == (self.flags == SYN_ONLY),
    {
        self.flags == SYN_ONLY
    }

    /// The endpoint that sent the datagram.
    pub fn source_endpoint(&self) -> (e: Endpoint)
        ensures
            e == self.source(),
    {
        Endpoint { ip: self.src_ip, port: self.src_port }
    }

    /// The endpoint that the datagram was sent to.
    pub fn destination_endpoint(&self) -> (e: Endpoint)
        ensures
            e == self.destination(),
    {
        Endpoint { ip: self.dst_ip, port: self.dst_port }
    }

    /// The same datagram travelling the other way.
    pub fn reverse(&self) -> (r: TcpDatagram)
        ensures
            r == self.reversed(),
    {
        TcpDatagram {
            src_ip: self.dst_ip,
            src_port: self.dst_port,
            dst_ip: self.src_ip,
            dst_port: self.src_port,
            bytes: self.bytes,
            ack_num: self.ack_num,
            seq_num: self.seq_num,
            flags: self.flags,
            offset: self.offset,
        }
    }
}

} // verus!
