use vstd::prelude::*;
use crate::error::Error;
use crate::error::ParseFailure;
use crate::types::pagination::bytes_of;
use crate::types::pagination::parse_count;
use crate::types::pagination::parse_number;

verus! {

/// The port that the bytes `s` write, or why they write none: a count that
/// fits in 16 bits.
pub open spec fn port_of(s: Seq<u8>) -> Result<u16, Error> {
    match parse_number(s) {
        Ok(count) => if count <= u16::MAX {
            Ok(count as u16)
        } else {
            Err(Error::ParseError(ParseFailure::Overflow))
        },
        Err(failure) => Err(Error::ParseError(failure)),
    }
}

/// Reads the port on which the service listens, or that of its store, from
/// text.
pub fn parse_port(text: &str) -> (r: Result<u16, Error>)
    ensures
        r == port_of(bytes_of(text@)),
{
    match parse_count(text) {
        Ok(count) => if count <= 0xFFFF {
            Ok(count as u16)
        } else {
            Err(Error::ParseError(ParseFailure::Overflow))
        },
        Err(failure) => Err(Error::ParseError(failure)),
    }
}

} // verus!
