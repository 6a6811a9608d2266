//! Network addresses as the monitor models them: an IPv4 address is four
//! octets, read from dotted-decimal host text. A host that does not parse is
//! a fatal configuration error for the run, never a retried one.
use vstd::prelude::*;

use crate::text::{all_digits, dec_val, parse_u16, split_char, split_on};

verus! {

/// An IPv4 address, one field per octet.
#[derive(Clone, Copy, PartialEq, Eq, Structural, Debug)]
pub struct Ipv4Address {
    pub a: u8,
    pub b: u8,
    pub c: u8,
    pub d: u8,
}

/// One dotted-decimal octet: non-empty digits, value at most 255, and no
/// leading zero (the lone digit `0` is allowed).
pub open spec fn is_octet(f: Seq<char>) -> bool {
    f.len() > 0 && all_digits(f) && dec_val(f) <= 255 && (f.len() > 1 ==> f[0] != '0')
}

/// Dotted-decimal host text: exactly four octets separated by dots.
pub open spec fn valid_ipv4(s: Seq<char>) -> bool {
    let fs = split_on(s, '.');
    fs.len() == 4 && is_octet(fs[0]) && is_octet(fs[1]) && is_octet(fs[2]) && is_octet(fs[3])
}

/// The address that valid host text denotes.
pub open spec fn ipv4_of(s: Seq<char>) -> Ipv4Address
    recommends
        valid_ipv4(s),
{
    let fs = split_on(s, '.');
    Ipv4Address {
        a: dec_val(fs[0]) as u8,
        b: dec_val(fs[1]) as u8,
        c: dec_val(fs[2]) as u8,
        d: dec_val(fs[3]) as u8,
    }
}

/// Reads one dotted-decimal octet; `None` exactly on text that is not one.
fn parse_octet(f: &Vec<char>) -> (r: Option<u8>)
    ensures
        r is Some <==> is_octet(f@),
        r is Some ==> r.unwrap() as nat == dec_val(f@),
{
    if f.len() > 1 && f[0] == '0' {
        return None;
    }
    match parse_u16(f) {
        Some(v) => {
            if v <= 255 {
                Some(v as u8)
            } else {
                None
            }
        },
        None => None,
    }
}

/// Parses host text as a dotted-decimal IPv4 address; `None` exactly on text
/// that `valid_ipv4` rejects.
pub fn parse_ipv4(v: &Vec<char>) -> (r: Option<Ipv4Address>)
    ensures
        r is Some <==> valid_ipv4(v@),
        r is Some ==> r.unwrap() == ipv4_of(v@),
{
    let fields = split_char(v, '.');
    if fields.len() != 4 {
        return None;
    }
    let a = match parse_octet(&fields[0]) {
        Some(x) => x,
        None => {
            return None;
        },
    };
    let b = match parse_octet(&fields[1]) {
        Some(x) => x,
        None => {
            return None;
        },
    };
    let c = match parse_octet(&fields[2]) {
        Some(x) => x,
        None => {
            return None;
        },
    };
    let d = match parse_octet(&fields[3]) {
        Some(x) => x,
        None => {
            return None;
        },
    };
    Some(Ipv4Address { a, b, c, d })
}

} // verus!
