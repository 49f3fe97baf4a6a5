//! Properties of the decoder, stated over the model and proved.
use vstd::prelude::*;

use crate::model::{
    be_u16_value, header_length, prepend_records, spec_parse_attribute, spec_parse_attributes,
    spec_parse_packet, AttributeModel, PacketModel, HEADER_LEN, MIN_ATTRIBUTE_LEN,
};
use crate::packet::RadiusError;

verus! {

/// A record whose declared length counts its type byte, its length byte and
/// its value bytes.
pub open spec fn valid_attribute(a: AttributeModel) -> bool {
    a.len >= MIN_ATTRIBUTE_LEN && a.val.len() + 2 == a.len
}

/// Every record of `attrs` is valid.
pub open spec fn valid_attributes(attrs: Seq<AttributeModel>) -> bool {
    forall|k: int| 0 <= k < attrs.len() ==> valid_attribute(#[trigger] attrs[k])
}

/// The wire bytes of one record.
pub open spec fn encode_attribute(a: AttributeModel) -> Seq<u8> {
    seq![a.typ, a.len] + a.val
}

/// The wire bytes of a sequence of records, one after the other.
pub open spec fn encode_attributes(attrs: Seq<AttributeModel>) -> Seq<u8>
    decreases attrs.len(),
{
    if attrs.len() == 0 {
        Seq::empty()
    } else {
        encode_attribute(attrs[0]) + encode_attributes(attrs.drop_first())
    }
}

/// The sum of the declared lengths of the records.
pub open spec fn total_declared_len(attrs: Seq<AttributeModel>) -> nat
    decreases attrs.len(),
{
    if attrs.len() == 0 {
        0
    } else {
        attrs[0].len as nat + total_declared_len(attrs.drop_first())
    }
}

/// The attribute bytes of a packet: none when it has no attribute region.
pub open spec fn encode_body(attributes: Option<Seq<AttributeModel>>) -> Seq<u8> {
    match attributes {
        Some(attrs) => encode_attributes(attrs),
        None => Seq::empty(),
    }
}

/// The wire bytes of a packet whose length field is the header size plus
/// the size of its attribute region.
pub open spec fn encode_packet(
    code: u8,
    identifier: u8,
    authenticator: Seq<u8>,
    attributes: Option<Seq<AttributeModel>>,
) -> Seq<u8> {
    let len = HEADER_LEN + encode_body(attributes).len();
    seq![code, identifier, (len / 256) as u8, (len % 256) as u8] + authenticator + encode_body(
        attributes,
    )
}

/// The wire bytes of valid records are as long as their declared lengths add up to.
pub proof fn lemma_encoded_len(attrs: Seq<AttributeModel>)
    requires
        valid_attributes(attrs),
    ensures
        encode_attributes(attrs).len() == total_declared_len(attrs),
    decreases attrs.len(),
{
    if attrs.len() > 0 {
        assert(valid_attribute(attrs[0]));
        lemma_encoded_len(attrs.drop_first());
    }
}

/// Decoding the wire bytes of valid records gives back the same records.
pub proof fn lemma_attributes_round_trip(attrs: Seq<AttributeModel>, first: bool)
    requires
        valid_attributes(attrs),
    ensures
        spec_parse_attributes(encode_attributes(attrs), first) == Ok::<Seq<AttributeModel>, RadiusError>(attrs),
    decreases attrs.len(),
{
    let s = encode_attributes(attrs);
    if attrs.len() == 0 {
        assert(s =~= Seq::<u8>::empty());
        assert(attrs =~= Seq::<AttributeModel>::empty());
    } else {
        let a = attrs[0];
        let tail = attrs.drop_first();
        assert(valid_attribute(a));
        lemma_attributes_round_trip(tail, false);
        assert(s[0] == a.typ && s[1] == a.len);
        assert(s.subrange(2, a.len as int) =~= a.val);
        assert(AttributeModel { typ: s[0], len: s[1], val: s.subrange(2, s[1] as int) } == a);
        assert(s.subrange(a.len as int, s.len() as int) =~= encode_attributes(tail));
        assert(seq![a] + tail =~= attrs);
        assert(spec_parse_attributes(s, first) == prepend_records(
            seq![a],
            spec_parse_attributes(encode_attributes(tail), false),
        ));
    }
}

/// Whatever decodes as a sequence of records is their wire bytes exactly, with
/// valid records only.
pub proof fn lemma_decoded_attributes_cover(s: Seq<u8>, first: bool)
    ensures
        spec_parse_attributes(s, first) matches Ok(attrs) ==> {
            &&& valid_attributes(attrs)
            &&& encode_attributes(attrs) == s
            &&& total_declared_len(attrs) == s.len()
        },
    decreases s.len(),
{
    if s.len() >= 2 && s[1] >= MIN_ATTRIBUTE_LEN && s[1] as int <= s.len() {
        let rest = s.subrange(s[1] as int, s.len() as int);
        lemma_decoded_attributes_cover(rest, false);
        if let Ok(attrs) = spec_parse_attributes(s, first) {
            let a = AttributeModel { typ: s[0], len: s[1], val: s.subrange(2, s[1] as int) };
            let tail_attrs = attrs.drop_first();
            assert(tail_attrs =~= spec_parse_attributes(rest, false)->Ok_0);
            assert(attrs[0] == a);
            assert forall|k: int| 0 <= k < attrs.len() implies valid_attribute(#[trigger] attrs[k]) by {
                if k > 0 {
                    assert(attrs[k] == tail_attrs[k - 1]);
                }
            }
            assert(encode_attributes(attrs) =~= s);
        }
    } else if s.len() == 0 {
        if let Ok(attrs) = spec_parse_attributes(s, first) {
            assert(attrs.len() == 0);
        }
    }
}

/// Round trip: encoding a header and valid records, then decoding the bytes
/// (with anything after them), gives back the same code, identifier,
/// authenticator and records, and leaves exactly the bytes that followed.
pub proof fn lemma_round_trip(
    code: u8,
    identifier: u8,
    authenticator: Seq<u8>,
    attributes: Option<Seq<AttributeModel>>,
    rest: Seq<u8>,
)
    requires
        authenticator.len() == 16,
        attributes matches Some(attrs) ==> {
            &&& attrs.len() > 0
            &&& valid_attributes(attrs)
            &&& HEADER_LEN + total_declared_len(attrs) <= u16::MAX
        },
    ensures
        spec_parse_packet(encode_packet(code, identifier, authenticator, attributes) + rest)
            == Ok::<(Seq<u8>, PacketModel), RadiusError>(
            (
                rest,
                PacketModel {
                    code,
                    identifier,
                    length: (HEADER_LEN + encode_body(attributes).len()) as u16,
                    authenticator,
                    attributes,
                },
            ),
        ),
{
    let body = encode_body(attributes);
    let len = HEADER_LEN + body.len();
    if let Some(attrs) = attributes {
        lemma_encoded_len(attrs);
        lemma_attributes_round_trip(attrs, true);
        assert(attrs[0].len >= 2) by {
            assert(valid_attribute(attrs[0]));
        }
        assert(body.len() >= 2) by {
            assert(body =~= encode_attribute(attrs[0]) + encode_attributes(attrs.drop_first()));
        }
    }
    let s = encode_packet(code, identifier, authenticator, attributes) + rest;
    assert(be_u16_value((len / 256) as u8, (len % 256) as u8) == len);
    assert(header_length(s) == len);
    assert(s.subrange(4, HEADER_LEN as int) =~= authenticator);
    assert(s.subrange(HEADER_LEN as int, len as int) =~= body);
    assert(s.subrange(len as int, s.len() as int) =~= rest);
}

/// Every successful decode is well formed: the length field is at least the
/// header size; the authenticator is 16 bytes of the input; attributes are present exactly when the length field exceeds
/// the header size, and then they are valid records whose wire bytes are
/// exactly the input between the header and the declared length; the bytes
/// handed back are all the input after the packet.
pub proof fn lemma_decoded_packet_well_formed(s: Seq<u8>)
    ensures
        spec_parse_packet(s) matches Ok((rest, p)) ==> {
            &&& s.len() >= HEADER_LEN
            &&& p.length == header_length(s)
            &&& p.length >= HEADER_LEN
            &&& p.authenticator == s.subrange(4, HEADER_LEN as int)
            &&& (p.attributes is Some <==> p.length > HEADER_LEN)
            &&& p.attributes matches Some(attrs) ==> {
                &&& p.length <= s.len()
                &&& attrs.len() > 0
                &&& valid_attributes(attrs)
                &&& encode_attributes(attrs) == s.subrange(HEADER_LEN as int, p.length as int)
                &&& rest == s.subrange(p.length as int, s.len() as int)
            }
            &&& p.attributes is None ==> rest == s.subrange(HEADER_LEN as int, s.len() as int)
        },
{
    if s.len() >= HEADER_LEN && header_length(s) > HEADER_LEN && header_length(s) <= s.len() {
        let region = s.subrange(HEADER_LEN as int, header_length(s) as int);
        lemma_decoded_attributes_cover(region, true);
        if let Ok(attrs) = spec_parse_attributes(region, true) {
            assert(region.len() > 0);
            assert(attrs.len() > 0) by {
                if attrs.len() == 0 {
                    assert(encode_attributes(attrs) =~= Seq::<u8>::empty());
                }
            }
        }
    }
}

/// Length consistency: when a packet decodes, its length field is at least
/// the header size, and its records' declared lengths add up to the length
/// field minus the header size.
pub proof fn lemma_length_consistency(s: Seq<u8>)
    ensures
        spec_parse_packet(s) matches Ok((_, p)) ==> {
            &&& p.length >= HEADER_LEN
            &&& total_declared_len(
                match p.attributes {
                    Some(attrs) => attrs,
                    None => Seq::empty(),
                },
            ) == p.length - HEADER_LEN
        },
{
    if s.len() >= HEADER_LEN && header_length(s) > HEADER_LEN {
        lemma_decoded_attributes_cover(s.subrange(HEADER_LEN as int, header_length(s) as int), true);
    }
}

/// A record that declares a length of 0 or 1 is rejected with
/// `InvalidAttributeLength`, on its own and after any number of valid records.
pub proof fn lemma_short_record_rejected(before: Seq<AttributeModel>, tail: Seq<u8>, first: bool)
    requires
        valid_attributes(before),
        tail.len() >= 2,
        tail[1] < MIN_ATTRIBUTE_LEN,
    ensures
        spec_parse_attribute(tail) == Err::<(Seq<u8>, AttributeModel), RadiusError>(
            RadiusError::InvalidAttributeLength,
        ),
        spec_parse_attributes(encode_attributes(before) + tail, first) == Err::<
            Seq<AttributeModel>,
            RadiusError,
        >(RadiusError::InvalidAttributeLength),
    decreases before.len(),
{
    let s = encode_attributes(before) + tail;
    if before.len() == 0 {
        assert(s =~= tail);
    } else {
        let a = before[0];
        let rest = before.drop_first();
        assert(valid_attribute(a));
        lemma_short_record_rejected(rest, tail, false);
        assert(s[1] == a.len);
        assert(s.subrange(a.len as int, s.len() as int) =~= encode_attributes(rest) + tail);
    }
}

} // verus!
