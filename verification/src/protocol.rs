//! The framed response encoding: length-prefixed strings and big-endian
//! integers, assembled into one byte record per result.
use vstd::prelude::*;

verus! {

use crate::analyze::Output;
use crate::location::SonarLocation;
use vstd::string::StringSliceAdditionalSpecFns;

/// The four big-endian bytes of a 32-bit value.
pub open spec fn spec_be_bytes(v: u32) -> Seq<u8> {
    seq![(v >> 24) as u8, (v >> 16) as u8, (v >> 8) as u8, v as u8]
}

/// Encodes a 32-bit integer as four big-endian bytes.
pub fn encode_int(value: i32) -> (r: Vec<u8>)
    ensures
        r@ == spec_be_bytes(value as u32),
{
    let v = value as u32;
    let mut out: Vec<u8> = Vec::new();
    out.push((v >> 24) as u8);
    out.push((v >> 16) as u8);
    out.push((v >> 8) as u8);
    out.push(v as u8);
    proof {
        assert(out@ =~= spec_be_bytes(value as u32));
    }
    out
}

/// A length-prefixed string record: the UTF-8 length as four big-endian
/// bytes, then the UTF-8 bytes.
pub open spec fn spec_string_bytes(s: Seq<char>) -> Seq<u8> {
    spec_be_bytes(vstd::utf8::encode_utf8(s).len() as u32) + vstd::utf8::encode_utf8(s)
}

/// Encodes a string with its length prefix.
pub fn encode_string(value: &str) -> (r: Vec<u8>)
    requires
        value.spec_bytes().len() <= 0x7FFF_FFFF,
    ensures
        r@ == spec_string_bytes(value@),
{
    let bytes = value.as_bytes();
    let mut out = encode_int(bytes.len() as i32);
    let mut payload = vstd::slice::slice_to_vec(bytes);
    out.append(&mut payload);
    proof {
        assert(out@ =~= spec_string_bytes(value@));
    }
    out
}

/// The sixteen bytes of a location: four big-endian integers in order.
pub open spec fn spec_location_bytes(l: SonarLocation) -> Seq<u8> {
    spec_be_bytes(l.start_line as u32) + spec_be_bytes(l.start_column as u32) + spec_be_bytes(
        l.end_line as u32,
    ) + spec_be_bytes(l.end_column as u32)
}

/// Encodes a location as its four integers.
pub fn write_location(location: &SonarLocation) -> (r: Vec<u8>)
    requires
        location.start_line <= 0x7FFF_FFFF,
        location.start_column <= 0x7FFF_FFFF,
        location.end_line <= 0x7FFF_FFFF,
        location.end_column <= 0x7FFF_FFFF,
    ensures
        r@ == spec_location_bytes(*location),
{
    let mut out = encode_int(location.start_line as i32);
    let mut b = encode_int(location.start_column as i32);
    out.append(&mut b);
    let mut b = encode_int(location.end_line as i32);
    out.append(&mut b);
    let mut b = encode_int(location.end_column as i32);
    out.append(&mut b);
    proof {
        assert(out@ =~= spec_location_bytes(*location));
    }
    out
}

} // verus!
