use osquery_client::decode::{decode_binary, i64_to_bits, Decoded};
use osquery_client::encode::bits_to_i64;
use osquery_client::error::ProtocolError;
use osquery_client::value::{Entry, Field, FieldValue, WireType};
use thrift::protocol::{
    TBinaryInputProtocol, TBinaryOutputProtocol, TFieldIdentifier, TInputProtocol,
    TListIdentifier, TMapIdentifier, TOutputProtocol, TSetIdentifier, TStructIdentifier, TType,
};

fn bytes_of(v: &FieldValue) -> Vec<u8> {
    assert!(v.is_well_formed());
    let mut out = Vec::new();
    v.encode(&mut out);
    out
}

fn text(s: &str) -> FieldValue {
    FieldValue::Binary(s.as_bytes().to_vec())
}

fn assert_round_trip(v: FieldValue) {
    let bytes = bytes_of(&v);
    let t = v.wire_type();
    assert_eq!(
        FieldValue::decode(&bytes, 0, t),
        Decoded::Complete { value: v, next: bytes.len() }
    );
}

fn nested() -> FieldValue {
    let inner = FieldValue::Struct(vec![
        Field { id: 1, value: FieldValue::I32(7) },
        Field { id: 2, value: text("seven") },
    ]);
    let list = FieldValue::ListOf(WireType::Struct, vec![inner, FieldValue::Struct(vec![])]);
    FieldValue::MapOf(
        WireType::Binary,
        WireType::ListOf,
        vec![
            Entry { key: text("k"), value: list },
            Entry { key: text(""), value: FieldValue::ListOf(WireType::Struct, vec![]) },
        ],
    )
}

#[test]
fn tags_are_those_of_the_wire() {
    let all = [
        (WireType::Bool, 2u8),
        (WireType::Byte, 3),
        (WireType::Double, 4),
        (WireType::I16, 6),
        (WireType::I32, 8),
        (WireType::I64, 10),
        (WireType::Binary, 11),
        (WireType::Struct, 12),
        (WireType::MapOf, 13),
        (WireType::SetOf, 14),
        (WireType::ListOf, 15),
    ];
    for (t, tag) in all {
        assert_eq!(t.to_tag(), tag);
        assert_eq!(WireType::from_tag(tag), Some(t));
    }
    for tag in [0u8, 1, 5, 7, 9, 16, 17, 255] {
        assert_eq!(WireType::from_tag(tag), None);
    }
}

#[test]
fn bool_is_one_byte() {
    assert_eq!(bytes_of(&FieldValue::Bool(true)), vec![1]);
    assert_eq!(bytes_of(&FieldValue::Bool(false)), vec![0]);
    assert_eq!(
        FieldValue::decode(&[2], 0, WireType::Bool),
        Decoded::Complete { value: FieldValue::Bool(true), next: 1 }
    );
    assert_eq!(
        FieldValue::decode(&[0], 0, WireType::Bool),
        Decoded::Complete { value: FieldValue::Bool(false), next: 1 }
    );
}

#[test]
fn byte_is_twos_complement() {
    assert_eq!(bytes_of(&FieldValue::Byte(-1)), vec![0xff]);
    assert_eq!(bytes_of(&FieldValue::Byte(-128)), vec![0x80]);
    assert_eq!(bytes_of(&FieldValue::Byte(127)), vec![0x7f]);
    assert_eq!(
        FieldValue::decode(&[0xfe], 0, WireType::Byte),
        Decoded::Complete { value: FieldValue::Byte(-2), next: 1 }
    );
}

#[test]
fn i16_is_big_endian() {
    assert_eq!(bytes_of(&FieldValue::I16(258)), vec![1, 2]);
    assert_eq!(bytes_of(&FieldValue::I16(-2)), vec![0xff, 0xfe]);
    assert_eq!(
        FieldValue::decode(&[0x80, 0x00], 0, WireType::I16),
        Decoded::Complete { value: FieldValue::I16(i16::MIN), next: 2 }
    );
}

#[test]
fn i32_is_big_endian() {
    assert_eq!(bytes_of(&FieldValue::I32(1)), vec![0, 0, 0, 1]);
    assert_eq!(bytes_of(&FieldValue::I32(0x01020304)), vec![1, 2, 3, 4]);
    assert_eq!(bytes_of(&FieldValue::I32(i32::MIN)), vec![0x80, 0, 0, 0]);
    assert_eq!(
        FieldValue::decode(&[0xff, 0xff, 0xff, 0xfd], 0, WireType::I32),
        Decoded::Complete { value: FieldValue::I32(-3), next: 4 }
    );
}

#[test]
fn i64_is_big_endian() {
    assert_eq!(bytes_of(&FieldValue::I64(-1)), vec![0xff; 8]);
    assert_eq!(bytes_of(&FieldValue::I64(42)), vec![0, 0, 0, 0, 0, 0, 0, 42]);
    assert_eq!(
        FieldValue::decode(&[0x7f, 0xff, 0xff, 0xff, 0xff, 0xff, 0xff, 0xff], 0, WireType::I64),
        Decoded::Complete { value: FieldValue::I64(i64::MAX), next: 8 }
    );
}

#[test]
fn double_is_its_ieee_bits() {
    assert_eq!(bytes_of(&FieldValue::Double(1.5f64.to_bits())), 1.5f64.to_be_bytes().to_vec());
    assert_eq!(
        bytes_of(&FieldValue::Double((-0.0f64).to_bits())),
        vec![0x80, 0, 0, 0, 0, 0, 0, 0]
    );
    let bytes = (-2.25f64).to_be_bytes();
    match FieldValue::decode(&bytes, 0, WireType::Double) {
        Decoded::Complete { value: FieldValue::Double(bits), next } => {
            assert_eq!(f64::from_bits(bits), -2.25);
            assert_eq!(next, 8);
        }
        other => panic!("{:?}", other),
    }
}

#[test]
fn bits_and_signed_agree() {
    assert_eq!(bits_to_i64(0), 0);
    assert_eq!(bits_to_i64(u64::MAX), -1);
    assert_eq!(bits_to_i64(0x8000_0000_0000_0000), i64::MIN);
    assert_eq!(bits_to_i64(0x7fff_ffff_ffff_ffff), i64::MAX);
    assert_eq!(i64_to_bits(-1), u64::MAX);
    assert_eq!(i64_to_bits(i64::MIN), 0x8000_0000_0000_0000);
    assert_eq!(i64_to_bits(i64::MAX), 0x7fff_ffff_ffff_ffff);
    assert_eq!(i64_to_bits(5), 5);
}

#[test]
fn binary_is_length_then_bytes() {
    assert_eq!(bytes_of(&text("ab")), vec![0, 0, 0, 2, b'a', b'b']);
    assert_eq!(bytes_of(&text("")), vec![0, 0, 0, 0]);
    assert_eq!(
        decode_binary(&[9, 0, 0, 0, 1, 0x41, 7], 1),
        Decoded::Complete { value: vec![0x41], next: 6 }
    );
}

#[test]
fn list_is_type_count_elements() {
    let v = FieldValue::ListOf(WireType::I32, vec![FieldValue::I32(1), FieldValue::I32(2)]);
    assert_eq!(bytes_of(&v), vec![8, 0, 0, 0, 2, 0, 0, 0, 1, 0, 0, 0, 2]);
    let s = FieldValue::SetOf(WireType::Bool, vec![FieldValue::Bool(true)]);
    assert_eq!(bytes_of(&s), vec![2, 0, 0, 0, 1, 1]);
}

#[test]
fn map_is_types_count_pairs() {
    let v = FieldValue::MapOf(
        WireType::Byte,
        WireType::I16,
        vec![Entry { key: FieldValue::Byte(1), value: FieldValue::I16(2) }],
    );
    assert_eq!(bytes_of(&v), vec![3, 6, 0, 0, 0, 1, 1, 0, 2]);
}

#[test]
fn struct_is_fields_then_stop() {
    let v = FieldValue::Struct(vec![
        Field { id: 1, value: FieldValue::I32(5) },
        Field { id: -2, value: FieldValue::Bool(true) },
    ]);
    assert_eq!(bytes_of(&v), vec![8, 0, 1, 0, 0, 0, 5, 2, 0xff, 0xfe, 1, 0]);
    assert_eq!(bytes_of(&FieldValue::Struct(vec![])), vec![0]);
}

#[test]
fn round_trip_scalars() {
    assert_round_trip(FieldValue::Bool(true));
    assert_round_trip(FieldValue::Bool(false));
    for v in [i8::MIN, -1, 0, 1, i8::MAX] {
        assert_round_trip(FieldValue::Byte(v));
    }
    for v in [i16::MIN, -1, 0, 1, 255, 256, i16::MAX] {
        assert_round_trip(FieldValue::I16(v));
    }
    for v in [i32::MIN, -1, 0, 1, 65536, i32::MAX] {
        assert_round_trip(FieldValue::I32(v));
    }
    for v in [i64::MIN, -1, 0, 1, 1 << 40, i64::MAX] {
        assert_round_trip(FieldValue::I64(v));
    }
    for v in [0u64, 1, u64::MAX, f64::NAN.to_bits(), 3.25f64.to_bits(), 1 << 63] {
        assert_round_trip(FieldValue::Double(v));
    }
}

#[test]
fn round_trip_empty_string_and_empty_collections() {
    assert_round_trip(text(""));
    assert_round_trip(FieldValue::Binary(vec![0, 255, 128]));
    assert_round_trip(FieldValue::ListOf(WireType::I64, vec![]));
    assert_round_trip(FieldValue::SetOf(WireType::Binary, vec![]));
    assert_round_trip(FieldValue::MapOf(WireType::Binary, WireType::Struct, vec![]));
    assert_round_trip(FieldValue::Struct(vec![]));
}

#[test]
fn round_trip_struct_in_list_in_map() {
    assert_round_trip(nested());
}

#[test]
fn round_trip_every_kind_in_one_struct() {
    assert_round_trip(FieldValue::Struct(vec![
        Field { id: 1, value: FieldValue::Bool(true) },
        Field { id: 2, value: FieldValue::Byte(-5) },
        Field { id: 3, value: FieldValue::I16(-300) },
        Field { id: 4, value: FieldValue::I32(70000) },
        Field { id: 5, value: FieldValue::I64(-5_000_000_000) },
        Field { id: 6, value: FieldValue::Double(0.1f64.to_bits()) },
        Field { id: 7, value: text("héllo") },
        Field { id: 8, value: FieldValue::ListOf(WireType::Byte, vec![FieldValue::Byte(1)]) },
        Field { id: 9, value: FieldValue::SetOf(WireType::I16, vec![FieldValue::I16(2)]) },
        Field { id: 10, value: nested() },
        Field { id: i16::MAX, value: FieldValue::Struct(vec![]) },
        Field { id: i16::MIN, value: FieldValue::Struct(vec![]) },
    ]));
}

#[test]
fn round_trip_in_the_middle_of_a_buffer() {
    let v = nested();
    let wire = bytes_of(&v);
    let mut buffer = vec![0xaa, 0xbb, 0xcc];
    buffer.extend_from_slice(&wire);
    buffer.extend_from_slice(&[0xdd, 0xee]);
    assert_eq!(
        FieldValue::decode(&buffer, 3, WireType::MapOf),
        Decoded::Complete { value: v, next: 3 + wire.len() }
    );
}

#[test]
fn encode_appends_to_what_is_there() {
    let mut out = vec![9, 9];
    FieldValue::I16(1).encode(&mut out);
    FieldValue::Bool(true).encode(&mut out);
    assert_eq!(out, vec![9, 9, 0, 1, 1]);
}

#[test]
fn every_strict_prefix_is_incomplete() {
    let wire = bytes_of(&nested());
    for cut in 0..wire.len() {
        assert_eq!(
            FieldValue::decode(&wire[..cut], 0, WireType::MapOf),
            Decoded::Incomplete,
            "cut at {}",
            cut
        );
    }
}

#[test]
fn position_past_the_end_is_incomplete() {
    assert_eq!(FieldValue::decode(&[1, 2], 2, WireType::Bool), Decoded::Incomplete);
    assert_eq!(FieldValue::decode(&[1, 2], 3, WireType::Bool), Decoded::Incomplete);
    assert_eq!(decode_binary(&[0, 0, 0, 0], 9), Decoded::Incomplete);
}

#[test]
fn unknown_type_tag_is_malformed() {
    assert_eq!(
        FieldValue::decode(&[16, 0, 0, 0, 0], 0, WireType::ListOf),
        Decoded::Malformed(ProtocolError::UnknownType)
    );
    assert_eq!(
        FieldValue::decode(&[1], 0, WireType::SetOf),
        Decoded::Malformed(ProtocolError::UnknownType)
    );
    assert_eq!(
        FieldValue::decode(&[11, 99, 0, 0, 0, 0], 0, WireType::MapOf),
        Decoded::Malformed(ProtocolError::UnknownType)
    );
    assert_eq!(
        FieldValue::decode(&[5, 0, 1, 0], 0, WireType::Struct),
        Decoded::Malformed(ProtocolError::UnknownType)
    );
}

#[test]
fn negative_length_is_malformed() {
    assert_eq!(
        FieldValue::decode(&[0xff, 0xff, 0xff, 0xff], 0, WireType::Binary),
        Decoded::Malformed(ProtocolError::NegativeLength)
    );
    assert_eq!(
        FieldValue::decode(&[8, 0x80, 0, 0, 0], 0, WireType::ListOf),
        Decoded::Malformed(ProtocolError::NegativeLength)
    );
    assert_eq!(
        FieldValue::decode(&[8, 8, 0xff, 0, 0, 0], 0, WireType::MapOf),
        Decoded::Malformed(ProtocolError::NegativeLength)
    );
}

#[test]
fn a_count_larger_than_the_input_is_incomplete() {
    assert_eq!(
        FieldValue::decode(&[8, 0x7f, 0xff, 0xff, 0xff, 0, 0, 0, 1], 0, WireType::ListOf),
        Decoded::Incomplete
    );
    assert_eq!(
        FieldValue::decode(&[0x7f, 0xff, 0xff, 0xff, 1, 2, 3], 0, WireType::Binary),
        Decoded::Incomplete
    );
}

#[test]
fn ill_typed_collections_are_not_well_formed() {
    assert!(!FieldValue::ListOf(WireType::I32, vec![FieldValue::Bool(true)]).is_well_formed());
    assert!(!FieldValue::SetOf(WireType::Binary, vec![FieldValue::I64(1)]).is_well_formed());
    assert!(!FieldValue::MapOf(
        WireType::Binary,
        WireType::I32,
        vec![Entry { key: text("a"), value: text("b") }]
    )
    .is_well_formed());
    assert!(!FieldValue::Struct(vec![Field {
        id: 1,
        value: FieldValue::ListOf(WireType::Byte, vec![FieldValue::I16(1)])
    }])
    .is_well_formed());
    assert!(nested().is_well_formed());
}

#[test]
fn wire_type_of_each_value() {
    assert_eq!(FieldValue::Bool(true).wire_type(), WireType::Bool);
    assert_eq!(FieldValue::Byte(0).wire_type(), WireType::Byte);
    assert_eq!(FieldValue::I16(0).wire_type(), WireType::I16);
    assert_eq!(FieldValue::I32(0).wire_type(), WireType::I32);
    assert_eq!(FieldValue::I64(0).wire_type(), WireType::I64);
    assert_eq!(FieldValue::Double(0).wire_type(), WireType::Double);
    assert_eq!(text("").wire_type(), WireType::Binary);
    assert_eq!(FieldValue::ListOf(WireType::Bool, vec![]).wire_type(), WireType::ListOf);
    assert_eq!(FieldValue::SetOf(WireType::Bool, vec![]).wire_type(), WireType::SetOf);
    assert_eq!(
        FieldValue::MapOf(WireType::Bool, WireType::Bool, vec![]).wire_type(),
        WireType::MapOf
    );
    assert_eq!(FieldValue::Struct(vec![]).wire_type(), WireType::Struct);
}

#[test]
fn thrift_reads_what_the_encoder_writes() {
    let v = FieldValue::Struct(vec![
        Field { id: 1, value: FieldValue::Bool(true) },
        Field { id: 2, value: FieldValue::Byte(-7) },
        Field { id: 3, value: FieldValue::I16(-1234) },
        Field { id: 4, value: FieldValue::I32(123456789) },
        Field { id: 5, value: FieldValue::I64(-1234567890123) },
        Field { id: 6, value: FieldValue::Double(6.5f64.to_bits()) },
        Field { id: 7, value: text("osquery") },
        Field {
            id: 8,
            value: FieldValue::ListOf(WireType::I32, vec![FieldValue::I32(3), FieldValue::I32(4)]),
        },
        Field {
            id: 9,
            value: FieldValue::MapOf(
                WireType::Binary,
                WireType::I64,
                vec![Entry { key: text("k"), value: FieldValue::I64(9) }],
            ),
        },
        Field { id: 10, value: FieldValue::SetOf(WireType::Byte, vec![FieldValue::Byte(1)]) },
    ]);
    let wire = bytes_of(&v);
    let mut p = TBinaryInputProtocol::new(&wire[..], true);
    p.read_struct_begin().unwrap();
    let f = p.read_field_begin().unwrap();
    assert_eq!((f.field_type, f.id), (TType::Bool, Some(1)));
    assert_eq!(p.read_bool().unwrap(), true);
    let f = p.read_field_begin().unwrap();
    assert_eq!((f.field_type, f.id), (TType::I08, Some(2)));
    assert_eq!(p.read_i8().unwrap(), -7);
    let f = p.read_field_begin().unwrap();
    assert_eq!((f.field_type, f.id), (TType::I16, Some(3)));
    assert_eq!(p.read_i16().unwrap(), -1234);
    let f = p.read_field_begin().unwrap();
    assert_eq!((f.field_type, f.id), (TType::I32, Some(4)));
    assert_eq!(p.read_i32().unwrap(), 123456789);
    let f = p.read_field_begin().unwrap();
    assert_eq!((f.field_type, f.id), (TType::I64, Some(5)));
    assert_eq!(p.read_i64().unwrap(), -1234567890123);
    let f = p.read_field_begin().unwrap();
    assert_eq!((f.field_type, f.id), (TType::Double, Some(6)));
    assert_eq!(p.read_double().unwrap(), 6.5);
    let f = p.read_field_begin().unwrap();
    assert_eq!((f.field_type, f.id), (TType::String, Some(7)));
    assert_eq!(p.read_string().unwrap(), "osquery");
    let f = p.read_field_begin().unwrap();
    assert_eq!((f.field_type, f.id), (TType::List, Some(8)));
    let l = p.read_list_begin().unwrap();
    assert_eq!((l.element_type, l.size), (TType::I32, 2));
    assert_eq!(p.read_i32().unwrap(), 3);
    assert_eq!(p.read_i32().unwrap(), 4);
    let f = p.read_field_begin().unwrap();
    assert_eq!((f.field_type, f.id), (TType::Map, Some(9)));
    let m = p.read_map_begin().unwrap();
    assert_eq!((m.key_type, m.value_type, m.size), (Some(TType::String), Some(TType::I64), 1));
    assert_eq!(p.read_string().unwrap(), "k");
    assert_eq!(p.read_i64().unwrap(), 9);
    let f = p.read_field_begin().unwrap();
    assert_eq!((f.field_type, f.id), (TType::Set, Some(10)));
    let s = p.read_set_begin().unwrap();
    assert_eq!((s.element_type, s.size), (TType::I08, 1));
    assert_eq!(p.read_i8().unwrap(), 1);
    let f = p.read_field_begin().unwrap();
    assert_eq!(f.field_type, TType::Stop);
    assert!(p.read_byte().is_err());
}

#[test]
fn the_decoder_reads_what_thrift_writes() {
    let mut wire: Vec<u8> = Vec::new();
    {
        let mut p = TBinaryOutputProtocol::new(&mut wire, true);
        p.write_struct_begin(&TStructIdentifier::new("S")).unwrap();
        p.write_field_begin(&TFieldIdentifier::new("a", TType::Bool, 1)).unwrap();
        p.write_bool(false).unwrap();
        p.write_field_begin(&TFieldIdentifier::new("b", TType::I08, 2)).unwrap();
        p.write_i8(-100).unwrap();
        p.write_field_begin(&TFieldIdentifier::new("c", TType::I16, 3)).unwrap();
        p.write_i16(1000).unwrap();
        p.write_field_begin(&TFieldIdentifier::new("d", TType::I32, 4)).unwrap();
        p.write_i32(-100000).unwrap();
        p.write_field_begin(&TFieldIdentifier::new("e", TType::I64, 5)).unwrap();
        p.write_i64(1 << 50).unwrap();
        p.write_field_begin(&TFieldIdentifier::new("f", TType::Double, 6)).unwrap();
        p.write_double(-0.75).unwrap();
        p.write_field_begin(&TFieldIdentifier::new("g", TType::String, 7)).unwrap();
        p.write_string("grüß").unwrap();
        p.write_field_begin(&TFieldIdentifier::new("h", TType::List, 8)).unwrap();
        p.write_list_begin(&TListIdentifier::new(TType::String, 2)).unwrap();
        p.write_string("x").unwrap();
        p.write_string("").unwrap();
        p.write_field_begin(&TFieldIdentifier::new("i", TType::Set, 9)).unwrap();
        p.write_set_begin(&TSetIdentifier::new(TType::I32, 1)).unwrap();
        p.write_i32(5).unwrap();
        p.write_field_begin(&TFieldIdentifier::new("j", TType::Map, 10)).unwrap();
        p.write_map_begin(&TMapIdentifier::new(TType::I16, TType::Struct, 1)).unwrap();
        p.write_i16(8).unwrap();
        p.write_field_stop().unwrap();
        p.write_field_stop().unwrap();
    }
    let expected = FieldValue::Struct(vec![
        Field { id: 1, value: FieldValue::Bool(false) },
        Field { id: 2, value: FieldValue::Byte(-100) },
        Field { id: 3, value: FieldValue::I16(1000) },
        Field { id: 4, value: FieldValue::I32(-100000) },
        Field { id: 5, value: FieldValue::I64(1 << 50) },
        Field { id: 6, value: FieldValue::Double((-0.75f64).to_bits()) },
        Field { id: 7, value: text("grüß") },
        Field { id: 8, value: FieldValue::ListOf(WireType::Binary, vec![text("x"), text("")]) },
        Field { id: 9, value: FieldValue::SetOf(WireType::I32, vec![FieldValue::I32(5)]) },
        Field {
            id: 10,
            value: FieldValue::MapOf(
                WireType::I16,
                WireType::Struct,
                vec![Entry { key: FieldValue::I16(8), value: FieldValue::Struct(vec![]) }],
            ),
        },
    ]);
    assert_eq!(
        FieldValue::decode(&wire, 0, WireType::Struct),
        Decoded::Complete { value: expected, next: wire.len() }
    );
}
