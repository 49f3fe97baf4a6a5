use nom::HexDisplay;
use radius::{
    parse_radius_attribute, parse_radius_attributes, parse_radius_data, RadiusAttribute,
    RadiusCode, RadiusData, RadiusError,
};

/// An 87-byte Access-Request with six attributes: User-Name, User-Password,
/// NAS-IP-Address, NAS-Port, Message-Authenticator and EAP-Message.
fn access_request() -> Vec<u8> {
    let mut p: Vec<u8> = vec![0x01, 0x67, 0x00, 0x57];
    p.extend_from_slice(&[
        0x40, 0x0b, 0x1f, 0x6c, 0x9a, 0x3e, 0x51, 0xd2, 0x87, 0x10, 0x2c, 0xe4, 0x77, 0x05, 0xb9,
        0x6a,
    ]);
    p.extend_from_slice(&[0x01, 0x07]);
    p.extend_from_slice(b"steve");
    p.extend_from_slice(&[0x02, 0x12]);
    p.extend_from_slice(&[
        0xdb, 0xc6, 0xc4, 0xb7, 0x58, 0xbe, 0x14, 0xf0, 0x05, 0xb3, 0x87, 0x7c, 0x9e, 0x2f, 0xb6,
        0x01,
    ]);
    p.extend_from_slice(&[0x04, 0x06, 0xc0, 0xa8, 0x00, 0x1c]);
    p.extend_from_slice(&[0x05, 0x06, 0x00, 0x00, 0x00, 0x7b]);
    p.extend_from_slice(&[0x50, 0x12]);
    p.extend_from_slice(&[
        0x11, 0x22, 0x33, 0x44, 0x55, 0x66, 0x77, 0x88, 0x99, 0xaa, 0xbb, 0xcc, 0xdd, 0xee, 0xff,
        0x00,
    ]);
    p.extend_from_slice(&[0x4f, 0x0c, 0x02, 0x00, 0x00, 0x0a, 0x01, 0x73, 0x74, 0x65, 0x76, 0x65]);
    assert_eq!(p.len(), 87);
    p
}

/// A 20-byte header with the given length field and a zero authenticator.
fn header(code: u8, id: u8, length: u16) -> Vec<u8> {
    let mut p = vec![code, id, (length >> 8) as u8, (length & 0xff) as u8];
    p.extend_from_slice(&[0u8; 16]);
    p
}

/// A header whose length field covers exactly `region`, followed by it.
fn packet_with_region(region: &[u8]) -> Vec<u8> {
    let mut p = header(1, 7, (20 + region.len()) as u16);
    p.extend_from_slice(region);
    p
}

#[test]
fn lib_print() {
    let access_request = access_request();
    println!("hexdump:\n{}", access_request.to_hex(16));
}

#[test]
fn it_works() {}

#[test]
fn lib_basic_radius_data() {
    let access_request = access_request();
    println!("hexdump:\n{}", access_request.to_hex(16));

    assert_eq!(
        parse_radius_data(&access_request),
        Ok((
            &access_request[access_request.len()..],
            RadiusData {
                code: 1,
                identifier: 103,
                length: 87,
                authenticator: &access_request[4..20],
                attributes: Some(vec![
                    RadiusAttribute { typ: 1, len: 7, val: &access_request[22..27] },
                    RadiusAttribute { typ: 2, len: 18, val: &access_request[29..45] },
                    RadiusAttribute { typ: 4, len: 6, val: &access_request[47..51] },
                    RadiusAttribute { typ: 5, len: 6, val: &access_request[53..57] },
                    RadiusAttribute { typ: 80, len: 18, val: &access_request[59..75] },
                    RadiusAttribute { typ: 79, len: 12, val: &access_request[77..87] },
                ]),
            }
        ))
    );
}

#[test]
fn fuzzer_test() {
    // A packet whose length field claims more than the buffer holds, and one
    // whose region ends in a record declaring length zero.
    let mut sample = header(1, 0, 0xffff);
    sample.extend_from_slice(&[0x01, 0x00, 0x00]);
    let res = parse_radius_data(&sample);
    println!("res: {:?}", res);
    assert_eq!(res, Err(RadiusError::InsufficientData));

    let sample = packet_with_region(&[0x01, 0x02, 0x01, 0x00]);
    let res = parse_radius_data(&sample);
    println!("res: {:?}", res);
    assert_eq!(res, Err(RadiusError::InvalidAttributeLength));
}

#[test]
fn length_exceeds_buffer() {
    let mut input = vec![0x01, 0x67, 0x00, 0x57];
    input.extend_from_slice(&[0u8; 16]);
    assert_eq!(parse_radius_data(&input), Err(RadiusError::InsufficientData));
}

#[test]
fn header_only_packet() {
    let input = header(2, 9, 20);
    let (rest, data) = parse_radius_data(&input).unwrap();
    assert!(rest.is_empty());
    assert_eq!(data.code, 2);
    assert_eq!(data.identifier, 9);
    assert_eq!(data.length, 20);
    assert_eq!(data.authenticator, &input[4..20]);
    assert_eq!(data.attributes, None);
}

#[test]
fn length_below_header_size_is_rejected() {
    let mut input = header(3, 1, 5);
    input.extend_from_slice(&[0xaa, 0xbb]);
    assert_eq!(parse_radius_data(&input), Err(RadiusError::InsufficientData));
    assert_eq!(parse_radius_data(&header(3, 1, 0)), Err(RadiusError::InsufficientData));
    assert_eq!(parse_radius_data(&header(3, 1, 19)), Err(RadiusError::InsufficientData));
}

#[test]
fn short_header_is_insufficient() {
    assert_eq!(parse_radius_data(&[]), Err(RadiusError::InsufficientData));
    let input = header(1, 1, 20);
    assert_eq!(parse_radius_data(&input[..19]), Err(RadiusError::InsufficientData));
}

#[test]
fn bytes_after_packet_are_returned() {
    let mut input = access_request();
    input.extend_from_slice(&[0xde, 0xad]);
    let (rest, data) = parse_radius_data(&input).unwrap();
    assert_eq!(rest, &[0xde, 0xad]);
    assert_eq!(data.length, 87);
    assert_eq!(data.attributes.unwrap().len(), 6);
}

#[test]
fn declared_lengths_add_up() {
    let input = access_request();
    let (_, data) = parse_radius_data(&input).unwrap();
    let total: usize = data.attributes.unwrap().iter().map(|a| a.len as usize).sum();
    assert_eq!(total, data.length as usize - 20);
}

#[test]
fn empty_value_record_at_end() {
    let input = packet_with_region(&[0x01, 0x03, 0x61, 0x21, 0x02]);
    let (rest, data) = parse_radius_data(&input).unwrap();
    assert!(rest.is_empty());
    let attrs = data.attributes.unwrap();
    assert_eq!(attrs.len(), 2);
    assert_eq!(attrs[0], RadiusAttribute { typ: 1, len: 3, val: &[0x61] });
    assert_eq!(attrs[1].typ, 0x21);
    assert_eq!(attrs[1].len, 2);
    assert!(attrs[1].val.is_empty());
}

#[test]
fn last_record_overruns_by_one() {
    let input = packet_with_region(&[0x01, 0x03, 0x61, 0x05, 0x06, 0x00, 0x00, 0x01]);
    assert_eq!(parse_radius_data(&input), Err(RadiusError::InsufficientData));
}

#[test]
fn zero_and_one_declared_lengths_rejected() {
    for bad in [0u8, 1u8] {
        assert_eq!(parse_radius_attribute(&[0x01, bad]), Err(RadiusError::InvalidAttributeLength));
        assert_eq!(
            parse_radius_attributes(&[0x01, bad, 0x00]),
            Err(RadiusError::InvalidAttributeLength)
        );
        assert_eq!(
            parse_radius_attributes(&[0x01, 0x03, 0x61, 0x02, bad]),
            Err(RadiusError::InvalidAttributeLength)
        );
        let input = packet_with_region(&[0x01, 0x02, 0x02, bad, 0x00, 0x00]);
        assert_eq!(parse_radius_data(&input), Err(RadiusError::InvalidAttributeLength));
    }
}

#[test]
fn trailing_byte_after_records() {
    assert_eq!(parse_radius_attributes(&[0x01, 0x02, 0x07]), Err(RadiusError::TrailingBytes));
    let input = packet_with_region(&[0x01, 0x03, 0x61, 0x07]);
    assert_eq!(parse_radius_data(&input), Err(RadiusError::TrailingBytes));
}

#[test]
fn single_byte_region_is_empty() {
    assert_eq!(parse_radius_attributes(&[0x01]), Err(RadiusError::EmptyAttributeRegion));
    let input = packet_with_region(&[0x01]);
    assert_eq!(parse_radius_data(&input), Err(RadiusError::EmptyAttributeRegion));
}

#[test]
fn first_record_overrun_is_insufficient() {
    assert_eq!(parse_radius_attributes(&[0x01, 0x04, 0x00]), Err(RadiusError::InsufficientData));
}

#[test]
fn single_attribute_decodes_with_rest() {
    let input = [0x1a, 0x04, 0x10, 0x20, 0x30];
    let (rest, attr) = parse_radius_attribute(&input).unwrap();
    assert_eq!(rest, &[0x30]);
    assert_eq!(attr, RadiusAttribute { typ: 0x1a, len: 4, val: &[0x10, 0x20] });
    assert_eq!(parse_radius_attribute(&[0x1a]), Err(RadiusError::InsufficientData));
    assert_eq!(parse_radius_attribute(&[0x1a, 0x05, 0x00]), Err(RadiusError::InsufficientData));
}

#[test]
fn round_trip_encoded_packet() {
    let records: Vec<(u8, Vec<u8>)> =
        vec![(1, b"alice".to_vec()), (6, vec![0, 0, 0, 2]), (24, vec![]), (26, vec![9; 40])];
    let auth: Vec<u8> = (0u8..16).collect();
    let mut region = Vec::new();
    for (t, v) in &records {
        region.push(*t);
        region.push((v.len() + 2) as u8);
        region.extend_from_slice(v);
    }
    let length = (20 + region.len()) as u16;
    let mut input = vec![4, 200, (length >> 8) as u8, (length & 0xff) as u8];
    input.extend_from_slice(&auth);
    input.extend_from_slice(&region);
    input.extend_from_slice(&[1, 2, 3]);

    let (rest, data) = parse_radius_data(&input).unwrap();
    assert_eq!(rest, &[1, 2, 3]);
    assert_eq!(data.code, 4);
    assert_eq!(data.identifier, 200);
    assert_eq!(data.length, length);
    assert_eq!(data.authenticator, &auth[..]);
    let attrs = data.attributes.unwrap();
    assert_eq!(attrs.len(), records.len());
    for (a, (t, v)) in attrs.iter().zip(records.iter()) {
        assert_eq!(a.typ, *t);
        assert_eq!(a.len as usize, v.len() + 2);
        assert_eq!(a.val, &v[..]);
    }
}

#[test]
fn exhaustive_small_inputs_never_panic() {
    for a in 0..=255u8 {
        for b in 0..=255u8 {
            let two = [a, b];
            let _ = parse_radius_attribute(&two);
            let _ = parse_radius_attributes(&two);
            let _ = parse_radius_attributes(&two[..1]);
            for c in [0u8, 1, 2, 3, 255] {
                let _ = parse_radius_attributes(&[a, b, c]);
                let mut p = vec![1, 1, a, b];
                p.extend_from_slice(&[c; 16]);
                p.extend_from_slice(&[c, b, a]);
                let r = parse_radius_data(&p);
                if let Ok((rest, d)) = r {
                    assert!(rest.len() <= p.len() - 20);
                    assert!(d.length >= 20);
                    assert_eq!(d.attributes.is_some(), d.length > 20);
                }
            }
        }
    }
    assert_eq!(parse_radius_attributes(&[]), Ok(vec![]));
}

#[test]
fn radius_code_values() {
    assert_eq!(RadiusCode::AccessRequest.value(), 1);
    assert_eq!(RadiusCode::AccountingResponse.value(), 5);
    assert_eq!(RadiusCode::AccessChallenge.value(), 11);
    assert_eq!(RadiusCode::StatusClient.value(), 13);
    assert_eq!(RadiusCode::Reserved.value(), 255);
    assert_eq!(RadiusCode::from_u8(2), Some(RadiusCode::AccessAccept));
    assert_eq!(RadiusCode::from_u8(12), Some(RadiusCode::StatusServer));
    assert_eq!(RadiusCode::from_u8(255), Some(RadiusCode::Reserved));
    assert_eq!(RadiusCode::from_u8(0), None);
    assert_eq!(RadiusCode::from_u8(6), None);
    for v in 0..=255u8 {
        if let Some(c) = RadiusCode::from_u8(v) {
            assert_eq!(c.value(), v);
        }
    }
}
