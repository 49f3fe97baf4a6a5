//! The packet codes that the protocol defines.
use vstd::prelude::*;

verus! {

/// The defined values of a packet's code byte. The decoder does not reject
/// other values: they are reserved.
#[derive(Debug, Clone, Copy, PartialEq, Eq, Structural)]
pub enum RadiusCode {
    AccessRequest,
    AccessAccept,
    AccessReject,
    AccountingRequest,
    AccountingResponse,
    AccessChallenge,
    StatusServer,
    StatusClient,
    Reserved,
}

impl RadiusCode {
    /// The code byte of each variant.
    pub open spec fn spec_value(self) -> u8 {
        match self {
            RadiusCode::AccessRequest => 1,
            RadiusCode::AccessAccept => 2,
            RadiusCode::AccessReject => 3,
            RadiusCode::AccountingRequest => 4,
            RadiusCode::AccountingResponse => 5,
            RadiusCode::AccessChallenge => 11,
            RadiusCode::StatusServer => 12,
            RadiusCode::StatusClient => 13,
            RadiusCode::Reserved => 255,
        }
    }

    /// The code byte that stands for this variant on the wire.
    pub fn value(self) -> (r: u8)
        ensures
            r == self.spec_value(),
    {
        match self {
            RadiusCode::AccessRequest => 1,
            RadiusCode::AccessAccept => 2,
            RadiusCode::AccessReject => 3,
            RadiusCode::AccountingRequest => 4,
            RadiusCode::AccountingResponse => 5,
            RadiusCode::AccessChallenge => 11,
            RadiusCode::StatusServer => 12,
            RadiusCode::StatusClient => 13,
            RadiusCode::Reserved => 255,
        }
    }

    /// The variant whose code byte is `v`, if any.
    pub fn from_u8(v: u8) -> (r: Option<RadiusCode>)
        ensures
            r matches Some(c) ==> c.spec_value() == v,
            r is None <==> (forall|c: RadiusCode| c.spec_value() != v),
    {
        let r = match v {
            1 => Some(RadiusCode::AccessRequest),
            2 => Some(RadiusCode::AccessAccept),
            3 => Some(RadiusCode::AccessReject),
            4 => Some(RadiusCode::AccountingRequest),
            5 => Some(RadiusCode::AccountingResponse),
            11 => Some(RadiusCode::AccessChallenge),
            12 => Some(RadiusCode::StatusServer),
            13 => Some(RadiusCode::StatusClient),
            255 => Some(RadiusCode::Reserved),
            _ => None,
        };
        proof {
            if r is None {
                assert(forall|c: RadiusCode| c.spec_value() != v);
            }
        }
        r
    }
}

} // verus!
