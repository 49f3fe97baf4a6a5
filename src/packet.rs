//! The decoded values: views over the caller's buffer, and the error kinds.
use vstd::prelude::*;

use crate::model::{AttributeModel, PacketModel};

verus! {

/// Why a buffer does not decode.
#[derive(Debug, Clone, Copy, PartialEq, Eq, Structural)]
pub enum RadiusError {
    /// Fewer bytes are available than a field or record declares or requires.
    InsufficientData,
    /// An attribute record declares a length below two.
    InvalidAttributeLength,
    /// A byte is left in the attribute region after the last whole record.
    TrailingBytes,
    /// The attribute region holds bytes but not even one record header.
    EmptyAttributeRegion,
}

/// One attribute record; `val` borrows its value bytes from the input.
#[derive(Debug, PartialEq, Eq)]
pub struct RadiusAttribute<'a> {
    pub typ: u8,
    pub len: u8,
    pub val: &'a [u8],
}

/// A decoded packet; the authenticator and the attribute values borrow from
/// the input. The length field is at least the header size, and
/// `attributes` is `None` exactly when it equals the header size.
#[derive(Debug, PartialEq, Eq)]
pub struct RadiusData<'a> {
    pub code: u8,
    pub identifier: u8,
    pub length: u16,
    pub authenticator: &'a [u8],
    pub attributes: Option<Vec<RadiusAttribute<'a>>>,
}

impl<'a> View for RadiusAttribute<'a> {
    type V = AttributeModel;

    open spec fn view(&self) -> AttributeModel {
        AttributeModel { typ: self.typ, len: self.len, val: self.val@ }
    }
}

/// The models of a sequence of records.
pub open spec fn attributes_view<'a>(v: Seq<RadiusAttribute<'a>>) -> Seq<AttributeModel> {
    v.map_values(|a: RadiusAttribute<'a>| a@)
}

impl<'a> View for RadiusData<'a> {
    type V = PacketModel;

    open spec fn view(&self) -> PacketModel {
        PacketModel {
            code: self.code,
            identifier: self.identifier,
            length: self.length,
            authenticator: self.authenticator@,
            attributes: match self.attributes {
                Some(v) => Some(attributes_view(v@)),
                None => None,
            },
        }
    }
}

/// The value of the result of decoding one record.
pub open spec fn attribute_result_view<'a>(
    r: Result<(&'a [u8], RadiusAttribute<'a>), RadiusError>,
) -> Result<(Seq<u8>, AttributeModel), RadiusError> {
    match r {
        Ok((rest, a)) => Ok((rest@, a@)),
        Err(e) => Err(e),
    }
}

/// The value of the result of decoding a sequence of records.
pub open spec fn attributes_result_view<'a>(
    r: Result<Vec<RadiusAttribute<'a>>, RadiusError>,
) -> Result<Seq<AttributeModel>, RadiusError> {
    match r {
        Ok(v) => Ok(attributes_view(v@)),
        Err(e) => Err(e),
    }
}

/// The value of the result of decoding a packet.
pub open spec fn packet_result_view<'a>(
    r: Result<(&'a [u8], RadiusData<'a>), RadiusError>,
) -> Result<(Seq<u8>, PacketModel), RadiusError> {
    match r {
        Ok((rest, d)) => Ok((rest@, d@)),
        Err(e) => Err(e),
    }
}

} // verus!
