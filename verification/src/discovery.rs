//! Finding the local host's IPv4 address in the description of a network
//! interface.
//!
//! The search for the dotted quad is the `regex` crate's; of its results
//! nothing is proved, they are only named. Reading the four numbers of a
//! match is this module's own.

use vstd::prelude::*;
use vstd::string::*;
use regex::{Captures, Error, Regex};
use crate::address::Ipv4Address;
use crate::text::{decimal, digit_char};

verus! {

/// `regex::Regex`, a compiled pattern.
#[verifier::external_type_specification]
#[verifier::external_body]
pub struct ExRegex(Regex);

/// `regex::Error`, why a pattern was not compiled.
#[verifier::external_type_specification]
#[verifier::external_body]
pub struct ExRegexError(Error);

/// `regex::Captures`, the groups of one match.
#[verifier::external_type_specification]
#[verifier::external_body]
pub struct ExCaptures<'h>(Captures<'h>);

/// Whether `Regex::new` compiles `pattern`.
pub uninterp spec fn pattern_accepted(pattern: Seq<char>) -> bool;

/// The pattern that `Regex::new` made a regex from; none for a regex that
/// was made in another way, such as with a builder's options.
pub uninterp spec fn source_of(regex: Regex) -> Option<Seq<char>>;

/// What `Regex::captures` finds in `text` for the regex that `Regex::new`
/// makes from `pattern`: nothing, or the leftmost match, as the text of
/// every group that took part in it and nothing for a group that did not.
/// Group 0 is the whole match.
pub uninterp spec fn capture_groups(pattern: Seq<char>, text: Seq<char>) -> Option<
    Seq<Option<Seq<char>>>,
>;

/// The groups that a `Captures` value holds, by index.
pub uninterp spec fn captured(captures: Captures) -> Seq<Option<Seq<char>>>;

/// Calls `Regex::new`. Trusted: whether the pattern compiles depends on the
/// pattern alone, and the compiled regex is that of the pattern handed in.
#[verifier::external_body]
fn compile(pattern: &str) -> (compiled: Result<Regex, Error>)
    ensures
        compiled is Ok <==> pattern_accepted(pattern@),
        compiled matches Ok(regex) ==> source_of(regex) == Some(pattern@),
{
    Regex::new(pattern)
}

/// Calls `Regex::captures`. Trusted: for a regex that `Regex::new` made,
/// what is found depends on the pattern and the text alone.
#[verifier::external_body]
fn find_groups<'h>(regex: &Regex, text: &'h str) -> (found: Option<Captures<'h>>)
    ensures
        source_of(*regex) matches Some(pattern) ==> match found {
            Some(captures) => capture_groups(pattern, text@) == Some(captured(captures)),
            None => capture_groups(pattern, text@) is None,
        },
{
    regex.captures(text)
}

/// Calls `Captures::get` and takes the matched text out of the result.
/// Trusted: an index without a group, or with a group that took no part in
/// the match, gives nothing; any other gives the group's text.
#[verifier::external_body]
fn group<'h>(captures: &Captures<'h>, index: usize) -> (text: Option<&'h str>)
    ensures
        match text {
            Some(t) => index < captured(*captures).len() && captured(*captures)[index as int]
                == Some(t@),
            None => index >= captured(*captures).len() || captured(*captures)[index as int]
                is None,
        },
{
    captures.get(index).map(|m| m.as_str())
}

/// Why a description that holds a dotted quad gave no address.
#[derive(Clone, Copy, Debug, PartialEq, Eq, Structural)]
pub enum AddressError {
    /// The matcher did not take the pattern.
    Pattern,
    /// The match lacks one of its four numbers.
    Group,
    /// One of the four numbers is not written in the digits `0` to `9`, or
    /// is larger than 255.
    Octet,
}

/// The value of the decimal digit `c`, if it is one of `0` to `9`.
pub open spec fn digit_value(c: char) -> Option<nat> {
    if c == '0' {
        Some(0)
    } else if c == '1' {
        Some(1)
    } else if c == '2' {
        Some(2)
    } else if c == '3' {
        Some(3)
    } else if c == '4' {
        Some(4)
    } else if c == '5' {
        Some(5)
    } else if c == '6' {
        Some(6)
    } else if c == '7' {
        Some(7)
    } else if c == '8' {
        Some(8)
    } else if c == '9' {
        Some(9)
    } else {
        None
    }
}

/// The number that `text` writes in decimal digits, leading zeros allowed;
/// none if `text` is empty or holds anything but the digits `0` to `9`.
pub open spec fn number_of(text: Seq<char>) -> Option<nat>
    decreases text.len(),
{
    if text.len() == 0 {
        None
    } else if text.len() == 1 {
        digit_value(text[0])
    } else {
        match (number_of(text.drop_last()), digit_value(text.last())) {
            (Some(n), Some(d)) => Some(n * 10 + d),
            _ => None,
        }
    }
}

/// The octet that `text` writes, if it writes a number up to 255.
pub open spec fn octet_of(text: Seq<char>) -> Option<u8> {
    match number_of(text) {
        Some(n) => if n <= 255 {
            Some(n as u8)
        } else {
            None
        },
        None => None,
    }
}

/// The address that the groups of a match for a dotted quad give: groups 1
/// to 4 are its four numbers.
pub open spec fn address_of(groups: Seq<Option<Seq<char>>>) -> Result<Ipv4Address, AddressError> {
    if groups.len() < 5 {
        Err(AddressError::Group)
    } else {
        quad_of(groups[1], groups[2], groups[3], groups[4])
    }
}

/// The address that four matched numbers give.
pub open spec fn quad_of(
    first: Option<Seq<char>>,
    second: Option<Seq<char>>,
    third: Option<Seq<char>>,
    fourth: Option<Seq<char>>,
) -> Result<Ipv4Address, AddressError> {
    match (first, second, third, fourth) {
        (Some(a), Some(b), Some(c), Some(d)) => match (
            octet_of(a),
            octet_of(b),
            octet_of(c),
            octet_of(d),
        ) {
            (Some(first), Some(second), Some(third), Some(fourth)) => Ok(
                Ipv4Address { first, second, third, fourth },
            ),
            _ => Err(AddressError::Octet),
        },
        _ => Err(AddressError::Group),
    }
}

/// The local address that the description `text` of an interface gives:
/// none if it holds no dotted quad, else the address that its leftmost
/// dotted quad writes.
pub open spec fn discovered(text: Seq<char>) -> Result<Option<Ipv4Address>, AddressError> {
    if !pattern_accepted(ADDRESS_PATTERN@) {
        Err(AddressError::Pattern)
    } else {
        match capture_groups(ADDRESS_PATTERN@, text) {
            None => Ok(None),
            Some(groups) => match address_of(groups) {
                Ok(address) => Ok(Some(address)),
                Err(e) => Err(e),
            },
        }
    }
}

/// The pattern of a dotted quad: four runs of digits with dots between them.
pub const ADDRESS_PATTERN: &'static str = r"(\d+)\.(\d+)\.(\d+)\.(\d+)";

fn digit_of(c: char) -> (d: Option<u32>)
    ensures
        match d {
            Some(v) => digit_value(c) == Some(v as nat) && v < 10,
            None => digit_value(c) is None,
        },
{
    if c == '0' {
        Some(0)
    } else if c == '1' {
        Some(1)
    } else if c == '2' {
        Some(2)
    } else if c == '3' {
        Some(3)
    } else if c == '4' {
        Some(4)
    } else if c == '5' {
        Some(5)
    } else if c == '6' {
        Some(6)
    } else if c == '7' {
        Some(7)
    } else if c == '8' {
        Some(8)
    } else if c == '9' {
        Some(9)
    } else {
        None
    }
}

/// A number only grows, or stays, when another digit is written behind it.
proof fn lemma_number_grows(text: Seq<char>, shorter: int)
    requires
        1 <= shorter <= text.len(),
        number_of(text) is Some,
    ensures
        number_of(text.take(shorter)) matches Some(n) && n <= number_of(text)->0,
    decreases text.len(),
{
    if shorter == text.len() {
        assert(text.take(shorter) =~= text);
    } else {
        assert(text.drop_last().take(shorter) =~= text.take(shorter));
        lemma_number_grows(text.drop_last(), shorter);
    }
}

/// A text with something other than a digit in it writes no number.
proof fn lemma_number_needs_digits(text: Seq<char>, at: int)
    requires
        0 <= at < text.len(),
        digit_value(text[at]) is None,
    ensures
        number_of(text) is None,
    decreases text.len(),
{
    if text.len() > 1 && at < text.len() - 1 {
        lemma_number_needs_digits(text.drop_last(), at);
    }
}

/// A number is read back from its decimal rendering.
pub proof fn lemma_number_of_decimal(n: nat)
    ensures
        number_of(decimal(n)) == Some(n),
    decreases n,
{
    if n >= 10 {
        lemma_number_of_decimal(n / 10);
        let front = decimal(n / 10);
        let all = front.push(digit_char(n % 10));
        assert(all.drop_last() =~= front);
        assert(all.last() == digit_char(n % 10));
        assert(front.len() >= 1) by {
            crate::text::lemma_decimal_digits(n / 10);
        }
    }
}

/// An address is read back from the four numbers of its rendering.
pub proof fn lemma_quad_of_rendering(ip: Ipv4Address)
    ensures
        quad_of(
            Some(decimal(ip.first as nat)),
            Some(decimal(ip.second as nat)),
            Some(decimal(ip.third as nat)),
            Some(decimal(ip.fourth as nat)),
        ) == Ok::<Ipv4Address, AddressError>(ip),
{
    lemma_number_of_decimal(ip.first as nat);
    lemma_number_of_decimal(ip.second as nat);
    lemma_number_of_decimal(ip.third as nat);
    lemma_number_of_decimal(ip.fourth as nat);
}

/// Reads an octet written in decimal digits, such as `10` or `255`.
/// Leading zeros are allowed. Nothing is read from an empty text, from a
/// text with any other character in it, or from a number above 255.
pub fn parse_octet(text: &str) -> (octet: Option<u8>)
    ensures
        octet == octet_of(text@),
{
    let len = text.unicode_len();
    if len == 0 {
        return None;
    }
    let mut value: u32 = 0;
    let mut i: usize = 0;
    while i < len
        invariant
            len == text@.len(),
            i <= len,
            value <= 255,
            i > 0 ==> number_of(text@.take(i as int)) == Some(value as nat),
            i == 0 ==> value == 0,
        decreases len - i,
    {
        let c = text.get_char(i);
        proof {
            assert(text@.take(i + 1).drop_last() =~= text@.take(i as int));
            assert(text@.take(i + 1).last() == text@[i as int]);
        }
        match digit_of(c) {
            None => {
                proof {
                    lemma_number_needs_digits(text@, i as int);
                }
                return None;
            },
            Some(d) => {
                value = value * 10 + d;
                if value > 255 {
                    proof {
                        if number_of(text@) is Some {
                            lemma_number_grows(text@, i + 1);
                        }
                    }
                    return None;
                }
            },
        }
        i = i + 1;
    }
    proof {
        assert(text@.take(len as int) =~= text@);
    }
    Some(value as u8)
}

/// Reads the address that four matched numbers give. A number that is
/// missing, or that is no octet, gives an error.
pub fn read_quad(
    first: Option<&str>,
    second: Option<&str>,
    third: Option<&str>,
    fourth: Option<&str>,
) -> (address: Result<Ipv4Address, AddressError>)
    ensures
        address == quad_of(
            match first {
                Some(t) => Some(t@),
                None => None,
            },
            match second {
                Some(t) => Some(t@),
                None => None,
            },
            match third {
                Some(t) => Some(t@),
                None => None,
            },
            match fourth {
                Some(t) => Some(t@),
                None => None,
            },
        ),
{
    match (first, second, third, fourth) {
        (Some(a), Some(b), Some(c), Some(d)) => {
            match (parse_octet(a), parse_octet(b), parse_octet(c), parse_octet(d)) {
                (Some(first), Some(second), Some(third), Some(fourth)) => Ok(
                    Ipv4Address { first, second, third, fourth },
                ),
                _ => Err(AddressError::Octet),
            }
        },
        _ => Err(AddressError::Group),
    }
}

/// Finds the local host's IPv4 address in the description of an interface:
/// the leftmost dotted quad in it. A description without one gives no
/// address. A dotted quad that writes no address, such as `300.1.1.1`, is an
/// error.
pub fn get_local_ipv4(description: &str) -> (address: Result<Option<Ipv4Address>, AddressError>)
    ensures
        address == discovered(description@),
{
    let regex = match compile(ADDRESS_PATTERN) {
        Ok(regex) => regex,
        Err(_) => {
            return Err(AddressError::Pattern);
        },
    };
    match find_groups(&regex, description) {
        None => Ok(None),
        Some(captures) => {
            let first = group(&captures, 1);
            let second = group(&captures, 2);
            let third = group(&captures, 3);
            let fourth = group(&captures, 4);
            match read_quad(first, second, third, fourth) {
                Ok(address) => Ok(Some(address)),
                Err(e) => Err(e),
            }
        },
    }
}

} // verus!
