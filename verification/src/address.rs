//! IPv4 addresses and transport endpoints, with their text renderings.

use vstd::prelude::*;
use vstd::string::*;
use crate::text::{
    append_decimal, decimal, is_digit, lemma_decimal_digits, lemma_decimal_injective,
    lemma_split_at_mark,
};

verus! {

/// An IPv4 address, held as its four octets in network order.
#[derive(Clone, Copy, Debug, PartialEq, Eq, Structural, Hash)]
pub struct Ipv4Address {
    pub first: u8,
    pub second: u8,
    pub third: u8,
    pub fourth: u8,
}

/// The dotted-quad rendering of an address.
pub open spec fn address_text(ip: Ipv4Address) -> Seq<char> {
    decimal(ip.first as nat) + seq!['.'] + decimal(ip.second as nat) + seq!['.'] + decimal(
        ip.third as nat,
    ) + seq!['.'] + decimal(ip.fourth as nat)
}

impl Ipv4Address {
    /// The address `first.second.third.fourth`.
    pub fn new(first: u8, second: u8, third: u8, fourth: u8) -> (ip: Ipv4Address)
        ensures
            ip == (Ipv4Address { first, second, third, fourth }),
    {
        Ipv4Address { first, second, third, fourth }
    }

    /// The address as one number, the first octet most significant.
    pub open spec fn bits(self) -> nat {
        (self.first as nat) * 0x100_0000 + (self.second as nat) * 0x1_0000 + (self.third as nat)
            * 0x100 + (self.fourth as nat)
    }

    /// The address as one number, the first octet most significant.
    pub fn to_bits(&self) -> (n: u32)
        ensures
            n as nat == self.bits(),
    {
        (self.first as u32) * 0x100_0000 + (self.second as u32) * 0x1_0000 + (self.third as u32)
            * 0x100 + (self.fourth as u32)
    }

    /// Appends the dotted-quad rendering of the address to `out`.
    pub fn append_to(&self, out: &mut String)
        ensures
            final(out)@ == old(out)@ + address_text(*self),
    {
        proof {
            reveal_strlit(".");
        }
        append_decimal(out, self.first as u32);
        out.append(".");
        append_decimal(out, self.second as u32);
        out.append(".");
        append_decimal(out, self.third as u32);
        out.append(".");
        append_decimal(out, self.fourth as u32);
        assert(out@ =~= old(out)@ + address_text(*self));
    }

    /// The dotted-quad rendering of the address, such as `10.0.0.5`.
    pub fn to_text(&self) -> (s: String)
        ensures
            s@ == address_text(*self),
    {
        let mut s = String::new();
        self.append_to(&mut s);
        assert(s@ =~= address_text(*self));
        s
    }
}

/// One side of a conversation: an address and a port.
#[derive(Clone, Copy, Debug, PartialEq, Eq, Structural, Hash)]
pub struct Endpoint {
    pub ip: Ipv4Address,
    pub port: u16,
}

/// The rendering `address:port` of an endpoint.
pub open spec fn endpoint_text(e: Endpoint) -> Seq<char> {
    address_text(e.ip) + seq![':'] + decimal(e.port as nat)
}

impl Endpoint {
    /// The endpoint `ip:port`.
    pub fn new(ip: Ipv4Address, port: u16) -> (e: Endpoint)
        ensures
            e == (Endpoint { ip, port }),
    {
        Endpoint { ip, port }
    }

    /// Appends the rendering `address:port` to `out`.
    pub fn append_to(&self, out: &mut String)
        ensures
            final(out)@ == old(out)@ + endpoint_text(*self),
    {
        proof {
            reveal_strlit(":");
        }
        self.ip.append_to(out);
        out.append(":");
        append_decimal(out, self.port as u32);
        assert(out@ =~= old(out)@ + endpoint_text(*self));
    }

    /// The rendering `address:port`, such as `10.0.0.5:51000`.
    pub fn to_text(&self) -> (s: String)
        ensures
            s@ == endpoint_text(*self),
    {
        let mut s = String::new();
        self.append_to(&mut s);
        assert(s@ =~= endpoint_text(*self));
        s
    }
}

/// Four texts with dots between them, a mark and a rest, read as the first
/// text, a dot, and what follows.
proof fn lemma_regroup(
    first: Seq<char>,
    second: Seq<char>,
    third: Seq<char>,
    fourth: Seq<char>,
    mark: char,
    rest: Seq<char>,
)
    ensures
        first + seq!['.'] + second + seq!['.'] + third + seq!['.'] + fourth + seq![mark] + rest
            == first + seq!['.'] + (second + seq!['.'] + (third + seq!['.'] + (fourth + seq![
            mark,
        ] + rest))),
{
    let dot = seq!['.'];
    let end = seq![mark];
    let tail4 = fourth + end + rest;
    let tail3 = third + dot + tail4;
    let tail2 = second + dot + tail3;
    assert(first + dot + second + dot + third + dot + fourth + end + rest =~= first + dot + second
        + dot + third + dot + tail4);
    assert(first + dot + second + dot + third + dot + tail4 =~= first + dot + second + dot
        + tail3);
    assert(first + dot + second + dot + tail3 =~= first + dot + tail2);
}

/// An address rendering followed by a mark that is no digit can be taken
/// apart in one way only.
pub proof fn lemma_address_then_mark(
    x: Ipv4Address,
    rest_x: Seq<char>,
    y: Ipv4Address,
    rest_y: Seq<char>,
    mark: char,
)
    requires
        !is_digit(mark),
        address_text(x) + seq![mark] + rest_x == address_text(y) + seq![mark] + rest_y,
    ensures
        x == y,
        rest_x == rest_y,
{
    let dot = seq!['.'];
    let end = seq![mark];
    let x1 = decimal(x.first as nat);
    let x2 = decimal(x.second as nat);
    let x3 = decimal(x.third as nat);
    let x4 = decimal(x.fourth as nat);
    let y1 = decimal(y.first as nat);
    let y2 = decimal(y.second as nat);
    let y3 = decimal(y.third as nat);
    let y4 = decimal(y.fourth as nat);
    lemma_decimal_digits(x.first as nat);
    lemma_decimal_digits(x.second as nat);
    lemma_decimal_digits(x.third as nat);
    lemma_decimal_digits(x.fourth as nat);
    lemma_decimal_digits(y.first as nat);
    lemma_decimal_digits(y.second as nat);
    lemma_decimal_digits(y.third as nat);
    lemma_decimal_digits(y.fourth as nat);
    lemma_regroup(x1, x2, x3, x4, mark, rest_x);
    lemma_regroup(y1, y2, y3, y4, mark, rest_y);
    let tail_x4 = x4 + end + rest_x;
    let tail_y4 = y4 + end + rest_y;
    let tail_x3 = x3 + dot + tail_x4;
    let tail_y3 = y3 + dot + tail_y4;
    let tail_x2 = x2 + dot + tail_x3;
    let tail_y2 = y2 + dot + tail_y3;
    assert(x1 + dot + tail_x2 == y1 + dot + tail_y2);
    lemma_split_at_mark(x1, tail_x2, y1, tail_y2, '.');
    lemma_split_at_mark(x2, tail_x3, y2, tail_y3, '.');
    lemma_split_at_mark(x3, tail_x4, y3, tail_y4, '.');
    lemma_split_at_mark(x4, rest_x, y4, rest_y, mark);
    lemma_decimal_injective(x.first as nat, y.first as nat);
    lemma_decimal_injective(x.second as nat, y.second as nat);
    lemma_decimal_injective(x.third as nat, y.third as nat);
    lemma_decimal_injective(x.fourth as nat, y.fourth as nat);
}

/// An endpoint rendering followed by a mark that is no digit can be taken
/// apart in one way only.
pub proof fn lemma_endpoint_then_mark(
    e: Endpoint,
    rest_e: Seq<char>,
    f: Endpoint,
    rest_f: Seq<char>,
    mark: char,
)
    requires
        !is_digit(mark),
        endpoint_text(e) + seq![mark] + rest_e == endpoint_text(f) + seq![mark] + rest_f,
    ensures
        e == f,
        rest_e == rest_f,
{
    let colon = seq![':'];
    let end = seq![mark];
    let tail_e = decimal(e.port as nat) + end + rest_e;
    let tail_f = decimal(f.port as nat) + end + rest_f;
    assert(endpoint_text(e) + end + rest_e =~= address_text(e.ip) + colon + tail_e);
    assert(endpoint_text(f) + end + rest_f =~= address_text(f.ip) + colon + tail_f);
    lemma_address_then_mark(e.ip, tail_e, f.ip, tail_f, ':');
    lemma_decimal_digits(e.port as nat);
    lemma_decimal_digits(f.port as nat);
    lemma_split_at_mark(decimal(e.port as nat), rest_e, decimal(f.port as nat), rest_f, mark);
    lemma_decimal_injective(e.port as nat, f.port as nat);
}

/// Different addresses have different renderings.
pub proof fn lemma_address_text_injective(x: Ipv4Address, y: Ipv4Address)
    requires
        address_text(x) == address_text(y),
    ensures
        x == y,
{
    lemma_address_then_mark(x, Seq::empty(), y, Seq::empty(), ':');
}

/// Different endpoints have different renderings.
pub proof fn lemma_endpoint_text_injective(e: Endpoint, f: Endpoint)
    requires
        endpoint_text(e) == endpoint_text(f),
    ensures
        e == f,
{
    lemma_address_then_mark(e.ip, decimal(e.port as nat), f.ip, decimal(f.port as nat), ':');
    lemma_decimal_injective(e.port as nat, f.port as nat);
}

} // verus!
