//! The mathematical model of the wire format: what a byte sequence decodes to.
use vstd::prelude::*;

use crate::packet::RadiusError;

verus! {

/// Size of the fixed packet header: code, identifier, length, authenticator.
pub const HEADER_LEN: usize = 20;

/// Smallest legal declared length of an attribute record (type and length bytes).
pub const MIN_ATTRIBUTE_LEN: u8 = 2;

/// One decoded attribute record, as values.
pub struct AttributeModel {
    pub typ: u8,
    pub len: u8,
    pub val: Seq<u8>,
}

/// One decoded packet, as values.
pub struct PacketModel {
    pub code: u8,
    pub identifier: u8,
    pub length: u16,
    pub authenticator: Seq<u8>,
    pub attributes: Option<Seq<AttributeModel>>,
}

/// The unsigned integer that two bytes encode in big-endian order.
pub open spec fn be_u16_value(hi: u8, lo: u8) -> nat {
    hi as nat * 256 + lo as nat
}

/// The length field of a header that starts `s`.
pub open spec fn header_length(s: Seq<u8>) -> nat
    recommends
        s.len() >= 4,
{
    be_u16_value(s[2], s[3])
}

/// Decoding one attribute record at the start of `s`: the remaining bytes and
/// the record, or why there is none.
pub open spec fn spec_parse_attribute(s: Seq<u8>) -> Result<(Seq<u8>, AttributeModel), RadiusError> {
    if s.len() < 2 {
        Err(RadiusError::InsufficientData)
    } else if s[1] < MIN_ATTRIBUTE_LEN {
        Err(RadiusError::InvalidAttributeLength)
    } else if s[1] as int > s.len() {
        Err(RadiusError::InsufficientData)
    } else {
        Ok(
            (
                s.subrange(s[1] as int, s.len() as int),
                AttributeModel { typ: s[0], len: s[1], val: s.subrange(2, s[1] as int) },
            ),
        )
    }
}

/// `prefix` put in front of the records of a decoding result; errors pass through.
pub open spec fn prepend_records(
    prefix: Seq<AttributeModel>,
    r: Result<Seq<AttributeModel>, RadiusError>,
) -> Result<Seq<AttributeModel>, RadiusError> {
    match r {
        Ok(rest) => Ok(prefix + rest),
        Err(e) => Err(e),
    }
}

/// Decoding `s` as a whole sequence of attribute records. `first` tells
/// whether no record has been decoded before `s` in the same region.
///
/// A lone byte that cannot start a record is `EmptyAttributeRegion` when it
/// is the whole region and `TrailingBytes` after earlier records. A record
/// that declares a length below 2 is `InvalidAttributeLength`, and one whose
/// value runs past the region is `InsufficientData`, wherever the record
/// stands, the first one included: each failure keeps its own kind rather
/// than being folded into `EmptyAttributeRegion`.
pub open spec fn spec_parse_attributes(s: Seq<u8>, first: bool) -> Result<Seq<AttributeModel>, RadiusError>
    decreases s.len(),
{
    if s.len() == 0 {
        Ok(Seq::empty())
    } else if s.len() < 2 {
        if first {
            Err(RadiusError::EmptyAttributeRegion)
        } else {
            Err(RadiusError::TrailingBytes)
        }
    } else if s[1] < MIN_ATTRIBUTE_LEN {
        Err(RadiusError::InvalidAttributeLength)
    } else if s[1] as int > s.len() {
        Err(RadiusError::InsufficientData)
    } else {
        let a = AttributeModel { typ: s[0], len: s[1], val: s.subrange(2, s[1] as int) };
        prepend_records(seq![a], spec_parse_attributes(s.subrange(s[1] as int, s.len() as int), false))
    }
}

/// Decoding a whole packet from the start of `s`: the bytes after it and the
/// packet, or why there is none.
///
/// A length field below the header size is `InsufficientData`: the packet
/// declares fewer bytes than its own header needs.
pub open spec fn spec_parse_packet(s: Seq<u8>) -> Result<(Seq<u8>, PacketModel), RadiusError> {
    if s.len() < HEADER_LEN || header_length(s) < HEADER_LEN {
        Err(RadiusError::InsufficientData)
    } else {
        let len = header_length(s);
        let header = |attributes: Option<Seq<AttributeModel>>|
            PacketModel {
                code: s[0],
                identifier: s[1],
                length: len as u16,
                authenticator: s.subrange(4, HEADER_LEN as int),
                attributes,
            };
        if len > HEADER_LEN {
            if len > s.len() {
                Err(RadiusError::InsufficientData)
            } else {
                match spec_parse_attributes(s.subrange(HEADER_LEN as int, len as int), true) {
                    Ok(attrs) => Ok((s.subrange(len as int, s.len() as int), header(Some(attrs)))),
                    Err(e) => Err(e),
                }
            }
        } else {
            Ok((s.subrange(HEADER_LEN as int, s.len() as int), header(None)))
        }
    }
}

} // verus!
