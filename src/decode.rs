//! The decoders: forward-only cursors over the caller's buffer.
use vstd::prelude::*;
use vstd::slice::slice_subrange;

use crate::model::{
    be_u16_value, prepend_records, AttributeModel, spec_parse_attribute, spec_parse_attributes, spec_parse_packet,
    HEADER_LEN, MIN_ATTRIBUTE_LEN,
};
use crate::packet::{
    attribute_result_view, attributes_result_view, attributes_view, packet_result_view,
    RadiusAttribute, RadiusData, RadiusError,
};

verus! {

/// The big-endian 16-bit integer of two bytes.
fn read_be_u16(hi: u8, lo: u8) -> (r: u16)
    ensures
        r as nat == be_u16_value(hi, lo),
{
    (hi as u16) * 256 + (lo as u16)
}

/// Decodes one attribute record at the start of `i`: its type byte, its
/// declared length (at least 2, at most the bytes available) and the
/// `declared_len - 2` value bytes. Returns the bytes after the record too.
pub fn parse_radius_attribute<'a>(i: &'a [u8]) -> (r: Result<(&'a [u8], RadiusAttribute<'a>), RadiusError>)
    ensures
        attribute_result_view(r) == spec_parse_attribute(i@),
{
    if i.len() < 2 {
        return Err(RadiusError::InsufficientData);
    }
    let typ = i[0];
    let len = i[1];
    if len < MIN_ATTRIBUTE_LEN {
        return Err(RadiusError::InvalidAttributeLength);
    }
    let end = len as usize;
    if end > i.len() {
        return Err(RadiusError::InsufficientData);
    }
    let val = slice_subrange(i, 2, end);
    let rest = slice_subrange(i, end, i.len());
    Ok((rest, RadiusAttribute { typ, len, val }))
}

/// Decodes a whole attribute region as a sequence of records that covers it
/// with no byte left over.
pub fn parse_radius_attributes<'a>(region: &'a [u8]) -> (r: Result<Vec<RadiusAttribute<'a>>, RadiusError>)
    ensures
        attributes_result_view(r) == spec_parse_attributes(region@, true),
{
    let mut records: Vec<RadiusAttribute<'a>> = Vec::new();
    let mut cur: &'a [u8] = region;
    while cur.len() > 0
        invariant
            spec_parse_attributes(region@, true) == prepend_records(
                attributes_view(records@),
                spec_parse_attributes(cur@, records@.len() == 0),
            ),
        decreases cur.len(),
    {
        if cur.len() < 2 {
            if records.len() == 0 {
                return Err(RadiusError::EmptyAttributeRegion);
            } else {
                return Err(RadiusError::TrailingBytes);
            }
        }
        match parse_radius_attribute(cur) {
            Err(e) => {
                return Err(e);
            },
            Ok((rest, a)) => {
                proof {
                    let done = attributes_view(records@);
                    let tail = spec_parse_attributes(rest@, false);
                    assert(attributes_view(records@.push(a)) =~= done.push(a@));
                    match tail {
                        Ok(t) => {
                            assert(done + (seq![a@] + t) =~= done.push(a@) + t);
                        },
                        Err(_) => {},
                    }
                }
                records.push(a);
                cur = rest;
            },
        }
    }
    proof {
        assert(attributes_view(records@) + Seq::<AttributeModel>::empty() =~= attributes_view(records@));
    }
    Ok(records)
}

/// Decodes one packet at the start of `i`: the 20-byte header and, when its
/// length field exceeds 20, the attribute region up to that length, which
/// must lie within `i`. A length field below 20 is `InsufficientData`.
/// Returns the bytes after the packet too.
pub fn parse_radius_data<'a>(i: &'a [u8]) -> (r: Result<(&'a [u8], RadiusData<'a>), RadiusError>)
    ensures
        packet_result_view(r) == spec_parse_packet(i@),
{
    if i.len() < HEADER_LEN {
        return Err(RadiusError::InsufficientData);
    }
    let code = i[0];
    let identifier = i[1];
    let length = read_be_u16(i[2], i[3]);
    if (length as usize) < HEADER_LEN {
        return Err(RadiusError::InsufficientData);
    }
    let authenticator = slice_subrange(i, 4, HEADER_LEN);
    if length as usize > HEADER_LEN {
        let end = length as usize;
        if end > i.len() {
            return Err(RadiusError::InsufficientData);
        }
        let region = slice_subrange(i, HEADER_LEN, end);
        match parse_radius_attributes(region) {
            Ok(attrs) => {
                let rest = slice_subrange(i, end, i.len());
                Ok((rest, RadiusData { code, identifier, length, authenticator, attributes: Some(attrs) }))
            },
            Err(e) => Err(e),
        }
    } else {
        let rest = slice_subrange(i, HEADER_LEN, i.len());
        Ok((rest, RadiusData { code, identifier, length, authenticator, attributes: None }))
    }
}

} // verus!
