//! The boundary to the packet decoder: IPv4 and TCP header fields as the
//! `pnet` crate reads them from raw bytes.
//!
//! Nothing here is proved. Each function makes one call into `pnet` and
//! says of its result only that it is a function of the bytes looked at.

use vstd::prelude::*;
use pnet::packet::ipv4::Ipv4Packet;
use pnet::packet::tcp::TcpPacket;
use pnet::packet::Packet;
use crate::address::Ipv4Address;

verus! {

/// `pnet::packet::ipv4::Ipv4Packet`, a view of an IPv4 packet in a byte buffer.
#[verifier::external_type_specification]
#[verifier::external_body]
pub struct ExIpv4Packet<'p>(Ipv4Packet<'p>);

/// `pnet::packet::tcp::TcpPacket`, a view of a TCP segment in a byte buffer.
#[verifier::external_type_specification]
#[verifier::external_body]
pub struct ExTcpPacket<'p>(TcpPacket<'p>);

/// The bytes that an IPv4 packet view looks at (its `packet()`).
pub uninterp spec fn ipv4_bytes(packet: Ipv4Packet) -> Seq<u8>;

/// The bytes that a TCP segment view looks at (its `packet()`).
pub uninterp spec fn tcp_bytes(packet: TcpPacket) -> Seq<u8>;

/// What `Ipv4Packet::get_source` reads from a packet of these bytes.
pub uninterp spec fn ipv4_source_field(bytes: Seq<u8>) -> Ipv4Address;

/// What `Ipv4Packet::get_destination` reads from a packet of these bytes.
pub uninterp spec fn ipv4_destination_field(bytes: Seq<u8>) -> Ipv4Address;

/// What `Ipv4Packet::get_next_level_protocol` reads from a packet of these bytes.
pub uninterp spec fn ipv4_protocol_field(bytes: Seq<u8>) -> u8;

/// What `Ipv4Packet::payload` gives for a packet of these bytes.
pub uninterp spec fn ipv4_payload_field(bytes: Seq<u8>) -> Seq<u8>;

/// What `TcpPacket::get_source` reads from a segment of these bytes.
pub uninterp spec fn tcp_source_field(bytes: Seq<u8>) -> u16;

/// What `TcpPacket::get_destination` reads from a segment of these bytes.
pub uninterp spec fn tcp_destination_field(bytes: Seq<u8>) -> u16;

/// What `TcpPacket::get_sequence` reads from a segment of these bytes.
pub uninterp spec fn tcp_sequence_field(bytes: Seq<u8>) -> u32;

/// What `TcpPacket::get_acknowledgement` reads from a segment of these bytes.
pub uninterp spec fn tcp_acknowledgement_field(bytes: Seq<u8>) -> u32;

/// What `TcpPacket::get_flags` reads from a segment of these bytes.
pub uninterp spec fn tcp_flags_field(bytes: Seq<u8>) -> u8;

/// What `TcpPacket::get_data_offset` reads from a segment of these bytes.
pub uninterp spec fn tcp_data_offset_field(bytes: Seq<u8>) -> u8;

/// What `TcpPacket::payload` gives for a segment of these bytes.
pub uninterp spec fn tcp_payload_field(bytes: Seq<u8>) -> Seq<u8>;

/// The fewest bytes that `pnet` takes for an IPv4 packet, and for a TCP
/// segment: the fixed part of either header.
pub const MINIMUM_HEADER: usize = 20;

/// Calls `Ipv4Packet::new`. Trusted: the view is made exactly when the
/// buffer holds at least the 20 bytes of the fixed header, and it looks at
/// the buffer handed in.
#[verifier::external_body]
pub(crate) fn ipv4_packet<'a>(bytes: &'a [u8]) -> (packet: Option<Ipv4Packet<'a>>)
    ensures
        packet is Some <==> bytes@.len() >= MINIMUM_HEADER,
        packet matches Some(p) ==> ipv4_bytes(p) == bytes@,
{
    Ipv4Packet::new(bytes)
}

/// Calls `Ipv4Packet::get_source`. Trusted: the result depends on the
/// packet's bytes alone.
#[verifier::external_body]
pub(crate) fn ipv4_source(packet: &Ipv4Packet) -> (ip: Ipv4Address)
    ensures
        ip == ipv4_source_field(ipv4_bytes(*packet)),
{
    let octets = packet.get_source().octets();
    Ipv4Address { first: octets[0], second: octets[1], third: octets[2], fourth: octets[3] }
}

/// Calls `Ipv4Packet::get_destination`. Trusted: the result depends on the
/// packet's bytes alone.
#[verifier::external_body]
pub(crate) fn ipv4_destination(packet: &Ipv4Packet) -> (ip: Ipv4Address)
    ensures
        ip == ipv4_destination_field(ipv4_bytes(*packet)),
{
    let octets = packet.get_destination().octets();
    Ipv4Address { first: octets[0], second: octets[1], third: octets[2], fourth: octets[3] }
}

/// Calls `Ipv4Packet::get_next_level_protocol` and takes the protocol
/// number out of it. Trusted: the result depends on the packet's bytes alone.
#[verifier::external_body]
pub(crate) fn ipv4_protocol(packet: &Ipv4Packet) -> (protocol: u8)
    ensures
        protocol == ipv4_protocol_field(ipv4_bytes(*packet)),
{
    packet.get_next_level_protocol().0
}

/// Calls `Ipv4Packet::payload`. Trusted: the result depends on the packet's
/// bytes alone.
#[verifier::external_body]
pub(crate) fn ipv4_payload<'a>(packet: &'a Ipv4Packet<'a>) -> (payload: &'a [u8])
    ensures
        payload@ == ipv4_payload_field(ipv4_bytes(*packet)),
{
    packet.payload()
}

/// Calls `TcpPacket::new`. Trusted: the view is made exactly when the buffer
/// holds at least the 20 bytes of the fixed header, and it looks at the
/// buffer handed in.
#[verifier::external_body]
pub(crate) fn tcp_packet<'a>(bytes: &'a [u8]) -> (packet: Option<TcpPacket<'a>>)
    ensures
        packet is Some <==> bytes@.len() >= MINIMUM_HEADER,
        packet matches Some(p) ==> tcp_bytes(p) == bytes@,
{
    TcpPacket::new(bytes)
}

/// Calls `TcpPacket::get_source`. Trusted: the result depends on the
/// segment's bytes alone.
#[verifier::external_body]
pub(crate) fn tcp_source(packet: &TcpPacket) -> (port: u16)
    ensures
        port == tcp_source_field(tcp_bytes(*packet)),
{
    packet.get_source()
}

/// Calls `TcpPacket::get_destination`. Trusted: the result depends on the
/// segment's bytes alone.
#[verifier::external_body]
pub(crate) fn tcp_destination(packet: &TcpPacket) -> (port: u16)
    ensures
        port == tcp_destination_field(tcp_bytes(*packet)),
{
    packet.get_destination()
}

/// Calls `TcpPacket::get_sequence`. Trusted: the result depends on the
/// segment's bytes alone.
#[verifier::external_body]
pub(crate) fn tcp_sequence(packet: &TcpPacket) -> (number: u32)
    ensures
        number == tcp_sequence_field(tcp_bytes(*packet)),
{
    packet.get_sequence()
}

/// Calls `TcpPacket::get_acknowledgement`. Trusted: the result depends on
/// the segment's bytes alone.
#[verifier::external_body]
pub(crate) fn tcp_acknowledgement(packet: &TcpPacket) -> (number: u32)
    ensures
        number == tcp_acknowledgement_field(tcp_bytes(*packet)),
{
    packet.get_acknowledgement()
}

/// Calls `TcpPacket::get_flags`. Trusted: the result depends on the
/// segment's bytes alone.
#[verifier::external_body]
pub(crate) fn tcp_flags(packet: &TcpPacket) -> (flags: u8)
    ensures
        flags == tcp_flags_field(tcp_bytes(*packet)),
{
    packet.get_flags()
}

/// Calls `TcpPacket::get_data_offset`. Trusted: the result depends on the
/// segment's bytes alone.
#[verifier::external_body]
pub(crate) fn tcp_data_offset(packet: &TcpPacket) -> (offset: u8)
    ensures
        offset == tcp_data_offset_field(tcp_bytes(*packet)),
{
    packet.get_data_offset()
}

/// Calls `TcpPacket::payload`. Trusted: the result depends on the segment's
/// bytes alone.
#[verifier::external_body]
pub(crate) fn tcp_payload<'a>(packet: &'a TcpPacket<'a>) -> (payload: &'a [u8])
    ensures
        payload@ == tcp_payload_field(tcp_bytes(*packet)),
{
    packet.payload()
}

} // verus!
