use mindustry_net::arc_types::Point2;
use mindustry_net::packet::PacketError;
use mindustry_net::type_io::{
    read_command, read_items, read_kick, read_object, read_prefixed_string, read_string,
    read_string_map, read_tile, read_unit, read_vec2, read_vec2_nullable, write_bool, write_byte,
    write_double, write_float, write_int, write_kick, write_long, write_object, write_short,
    write_string, write_tile, write_unit, write_unsigned_short, Double, Float, Items, KickReason,
    Object, Reader, Tile, Unit, Vec2, Vec2Nullable,
};

fn reader(bytes: &[u8]) -> Reader {
    Reader::new(bytes.to_vec())
}

#[test]
fn point2_pack_gives_upper_x_lower_y() {
    let p = Point2 { x: 1, y: 2 };
    assert_eq!(p.pack(), 0x0001_0002);
    assert_eq!(p.pack_unsigned(), 0x0001_0002);
    let n = Point2 { x: -1, y: -2 };
    assert_eq!(n.pack_unsigned(), 0xFFFF_FFFE);
    assert_eq!(n.pack(), -2);
}

#[test]
fn point2_unpack_of_pack_is_identity_on_edges() {
    for &(x, y) in &[(0i16, 0i16), (-1, -1), (i16::MIN, i16::MAX), (i16::MAX, i16::MIN), (-3, 7)] {
        let p = Point2 { x, y };
        let q = Point2::unpack(p.pack() as u32);
        assert_eq!((q.x, q.y), (x, y));
        let r = Point2::unpack(p.pack_unsigned());
        assert_eq!((r.x, r.y), (x, y));
    }
}

#[test]
fn point2_unpack_splits_word() {
    let p = Point2::unpack(0x8000_7FFF);
    assert_eq!((p.x, p.y), (i16::MIN, i16::MAX));
}

#[test]
fn reader_reads_big_endian() {
    let mut r = reader(&[
        0x01, 0x00, 0x02, 0x80, 0x00, 0x12, 0x34, 0x56, 0x78, 0x01, 0x02, 0x03, 0x04, 0x05, 0x06,
        0x07, 0x08, 0xFF, 0xFE,
    ]);
    assert_eq!(r.remaining(), 19);
    assert_eq!(r.byte(), 1);
    assert_eq!(r.unsigned_short(), 2);
    assert_eq!(r.short(), i16::MIN);
    assert_eq!(r.int32(), 0x1234_5678);
    assert_eq!(r.long(), 0x0102_0304_0506_0708);
    assert_eq!(r.short(), -2);
    assert_eq!(r.remaining(), 0);
    assert_eq!(r.offset(), 19);
}

#[test]
fn reader_bool_is_any_nonzero_byte() {
    let mut r = reader(&[0, 1, 2, 255]);
    assert!(!r.bool());
    assert!(r.bool());
    assert!(r.bool());
    assert!(r.bool());
}

#[test]
fn reader_bytes_clamps_to_the_end() {
    let mut r = reader(&[1, 2, 3, 4, 5]);
    assert_eq!(r.bytes(2), vec![1, 2]);
    assert_eq!(r.bytes(10), vec![3, 4, 5]);
    assert_eq!(r.remaining(), 0);
    assert_eq!(r.bytes(3), Vec::<u8>::new());
}

#[test]
fn reader_read_remaining_takes_the_rest() {
    let mut r = reader(&[9, 8, 7]);
    r.byte();
    assert_eq!(r.read_remaining(), vec![8, 7]);
    assert_eq!(r.remaining(), 0);
}

#[test]
fn reader_need_and_skip() {
    let mut r = reader(&[1, 2, 3]);
    assert!(r.need(3).is_ok());
    assert_eq!(r.need(4), Err(PacketError::UnexpectedEnd));
    assert!(r.need_items(1, 3).is_ok());
    assert_eq!(r.need_items(2, 2), Err(PacketError::UnexpectedEnd));
    r.skip(2);
    assert_eq!(r.byte(), 3);
}

#[test]
fn reader_float_and_double_keep_the_bits() {
    let mut r = reader(&[0x3F, 0x80, 0x00, 0x00, 0x40, 0x09, 0x21, 0xFB, 0x54, 0x44, 0x2D, 0x18]);
    assert_eq!(f32::from_bits(r.float().bits), 1.0f32);
    assert_eq!(f64::from_bits(r.double().bits), std::f64::consts::PI);
}

#[test]
fn writers_write_big_endian() {
    let mut buf = Vec::new();
    write_byte(&mut buf, 0xAB);
    write_bool(&mut buf, true);
    write_bool(&mut buf, false);
    write_short(&mut buf, -2);
    write_unsigned_short(&mut buf, 0x1234);
    write_int(&mut buf, 0xDEAD_BEEF);
    write_long(&mut buf, 0x0102_0304_0506_0708);
    write_float(&mut buf, Float { bits: 1.0f32.to_bits() });
    write_double(&mut buf, Double { bits: 2.0f64.to_bits() });
    assert_eq!(
        buf,
        vec![
            0xAB, 1, 0, 0xFF, 0xFE, 0x12, 0x34, 0xDE, 0xAD, 0xBE, 0xEF, 1, 2, 3, 4, 5, 6, 7, 8,
            0x3F, 0x80, 0, 0, 0x40, 0, 0, 0, 0, 0, 0, 0
        ]
    );
}

#[test]
fn float_from_int_matches_the_machine() {
    for v in [0i32, 1, -1, 2, 3, 8, 50, 1080, 1920, 17950, 262136, -262144, 16777215, -16777215] {
        assert_eq!(Float::from_int(v).bits, (v as f32).to_bits(), "{}", v);
    }
    assert_eq!(Float::from_int(1920).bits, 0x44F0_0000);
    assert_eq!(Float::from_int(-1).bits, 0xBF80_0000);
}

#[test]
fn float_nan_is_recognised() {
    assert!(Float { bits: f32::NAN.to_bits() }.is_nan());
    assert!(Float { bits: 0xFFC0_0001 }.is_nan());
    assert!(!Float { bits: f32::INFINITY.to_bits() }.is_nan());
    assert!(!Float { bits: f32::NEG_INFINITY.to_bits() }.is_nan());
    assert!(!Float { bits: 1.5f32.to_bits() }.is_nan());
}

#[test]
fn prefixed_string_present() {
    let mut r = reader(&[1, 0, 5, b'h', b'e', b'l', b'l', b'o', 9]);
    assert_eq!(read_prefixed_string(&mut r), Some("hello".to_string()));
    assert_eq!(r.remaining(), 1);
}

#[test]
fn prefixed_string_absent_on_zero_flag() {
    let mut r = reader(&[0, 0, 5]);
    assert_eq!(read_prefixed_string(&mut r), None);
    assert_eq!(r.remaining(), 2);
}

#[test]
fn prefixed_string_absent_when_out_of_buffer() {
    let mut r = reader(&[]);
    assert_eq!(read_prefixed_string(&mut r), None);
    let mut r = reader(&[1, 0]);
    assert_eq!(read_prefixed_string(&mut r), None);
    assert_eq!(r.remaining(), 1);
    let mut r = reader(&[1, 0, 5, b'h', b'i']);
    assert_eq!(read_prefixed_string(&mut r), None);
    assert_eq!(r.remaining(), 2);
}

#[test]
fn prefixed_string_absent_on_bad_utf8() {
    let mut r = reader(&[1, 0, 2, 0xC3, 0x28]);
    assert_eq!(read_prefixed_string(&mut r), None);
    assert_eq!(r.remaining(), 0);
}

#[test]
fn length_prefixed_string() {
    let mut r = reader(&[0, 3, 0xC3, 0xA9, b'x', 7]);
    assert_eq!(read_string(&mut r), Some("\u{e9}x".to_string()));
    assert_eq!(r.remaining(), 1);
    let mut r = reader(&[0, 0, 7]);
    assert_eq!(read_string(&mut r), None);
    assert_eq!(r.remaining(), 1);
}

#[test]
fn length_prefixed_string_is_cut_at_the_end() {
    let mut r = reader(&[0, 9, b'a', b'b']);
    assert_eq!(read_string(&mut r), Some("ab".to_string()));
    assert_eq!(r.remaining(), 0);
}

#[test]
fn write_string_forms() {
    let mut buf = vec![7];
    assert_eq!(write_string(&mut buf, ""), Ok(()));
    assert_eq!(buf, vec![7, 0]);
    assert_eq!(write_string(&mut buf, "h\u{e9}"), Ok(()));
    assert_eq!(buf, vec![7, 0, 1, 0, 3, b'h', 0xC3, 0xA9]);
}

#[test]
fn write_string_too_long_writes_nothing() {
    let long = "a".repeat(65536);
    let mut buf = vec![1, 2];
    assert_eq!(write_string(&mut buf, &long), Err(PacketError::EncodingTooLong));
    assert_eq!(buf, vec![1, 2]);
    let fits = "a".repeat(65535);
    assert_eq!(write_string(&mut buf, &fits), Ok(()));
    assert_eq!(buf.len(), 2 + 3 + 65535);
    assert_eq!(&buf[2..5], &[1, 0xFF, 0xFF]);
}

#[test]
fn string_written_is_read_back() {
    let mut buf = Vec::new();
    write_string(&mut buf, "Swarm").unwrap();
    let mut r = Reader::new(buf);
    assert_eq!(read_prefixed_string(&mut r), Some("Swarm".to_string()));
}

#[test]
fn string_map_in_order() {
    let mut r = reader(&[0, 2, 0, 1, b'a', 0, 1, b'b', 0, 1, b'c', 0, 0, 9]);
    let map = read_string_map(&mut r).unwrap();
    assert_eq!(map.len(), 2);
    assert_eq!(map[0].key, "a");
    assert_eq!(map[0].value, Some("b".to_string()));
    assert_eq!(map[1].key, "c");
    assert_eq!(map[1].value, None);
    assert_eq!(r.remaining(), 1);
}

#[test]
fn string_map_errors() {
    assert_eq!(read_string_map(&mut reader(&[0])).err(), Some(PacketError::UnexpectedEnd));
    assert_eq!(read_string_map(&mut reader(&[0, 1, 0, 0, 0, 0])).err(), Some(PacketError::ProtocolError));
    assert_eq!(read_string_map(&mut reader(&[0, 1, 0, 1, b'a'])).err(), Some(PacketError::UnexpectedEnd));
    assert_eq!(read_string_map(&mut reader(&[0xFF, 0xFF])).unwrap().len(), 0);
}

#[test]
fn kick_reasons_by_code() {
    let all = [
        KickReason::Kick,
        KickReason::ClientOutdated,
        KickReason::ServerOutdated,
        KickReason::Banned,
        KickReason::GameOver,
        KickReason::RecentKick,
        KickReason::NameInUse,
        KickReason::IdInUse,
        KickReason::NameEmpty,
        KickReason::CustomClient,
        KickReason::ServerClose,
        KickReason::Vote,
        KickReason::TypeMismatch,
        KickReason::Whitelist,
        KickReason::PlayerLimit,
        KickReason::ServerRestarting,
    ];
    for (code, reason) in all.iter().enumerate() {
        assert_eq!(KickReason::from_byte(code as u8), Some(*reason));
        assert_eq!(reason.to_byte(), code as u8);
        let mut buf = Vec::new();
        write_kick(&mut buf, *reason);
        assert_eq!(buf, vec![code as u8]);
        assert_eq!(read_kick(&mut Reader::new(buf)), Some(*reason));
    }
    assert_eq!(KickReason::from_byte(16), None);
    assert_eq!(read_kick(&mut reader(&[255])), None);
}

#[test]
fn tile_unit_items() {
    let mut r = reader(&[0xFF, 0xFF, 0x00, 0x02, 5, 0, 0, 0, 9, 0, 3, 0, 0, 1, 0]);
    assert_eq!(read_tile(&mut r), Tile { x: -1, y: 2 });
    assert_eq!(read_unit(&mut r), Unit { unit_type: 5, id: 9 });
    assert_eq!(read_items(&mut r), Items { id: 3, count: 256 });
    assert_eq!(r.remaining(), 0);
}

#[test]
fn unit_is_written_id_first() {
    let mut buf = Vec::new();
    write_unit(&mut buf, Unit { unit_type: 5, id: 0x0102_0304 });
    assert_eq!(buf, vec![1, 2, 3, 4, 5]);
    let mut buf = Vec::new();
    write_tile(&mut buf, Tile { x: -1, y: 2 });
    assert_eq!(buf, vec![0xFF, 0xFF, 0, 2]);
}

#[test]
fn vec2_and_nullable() {
    let mut bytes = Vec::new();
    bytes.extend_from_slice(&1.5f32.to_be_bytes());
    bytes.extend_from_slice(&(-2.0f32).to_be_bytes());
    let v = read_vec2(&mut Reader::new(bytes.clone()));
    assert_eq!(v, Vec2 { x: Float { bits: 1.5f32.to_bits() }, y: Float { bits: (-2.0f32).to_bits() } });
    assert_eq!(read_vec2_nullable(&mut Reader::new(bytes)), Some(v));
    let mut nan = Vec::new();
    nan.extend_from_slice(&1.0f32.to_be_bytes());
    nan.extend_from_slice(&f32::NAN.to_be_bytes());
    assert_eq!(read_vec2_nullable(&mut Reader::new(nan)), None);
    let mut nan = Vec::new();
    nan.extend_from_slice(&f32::NAN.to_be_bytes());
    nan.extend_from_slice(&1.0f32.to_be_bytes());
    assert_eq!(read_vec2_nullable(&mut Reader::new(nan)), None);
}

#[test]
fn command_255_is_none() {
    assert_eq!(read_command(&mut reader(&[255])), None);
    assert_eq!(read_command(&mut reader(&[0])), Some(0));
    assert_eq!(read_command(&mut reader(&[254])), Some(254));
}

fn object_of(bytes: &[u8]) -> (Result<Object, PacketError>, usize) {
    let mut r = reader(bytes);
    let o = read_object(&mut r);
    (o, r.offset())
}

#[test]
fn object_scalars() {
    assert!(matches!(object_of(&[0, 9]), (Ok(Object::Null), 1)));
    assert!(matches!(object_of(&[1, 0, 0, 1, 0]), (Ok(Object::Int(256)), 5)));
    assert!(matches!(object_of(&[2, 0, 0, 0, 0, 0, 0, 0, 7]), (Ok(Object::Long(7)), 9)));
    assert!(matches!(object_of(&[3, 0x3F, 0x80, 0, 0]), (Ok(Object::Float(Float { bits: 0x3F80_0000 })), 5)));
    assert!(matches!(object_of(&[10, 2]), (Ok(Object::Boolean(true)), 2)));
    assert!(matches!(object_of(&[10, 0]), (Ok(Object::Boolean(false)), 2)));
    assert!(matches!(
        object_of(&[11, 0x40, 0, 0, 0, 0, 0, 0, 0]),
        (Ok(Object::Double(Double { bits: 0x4000_0000_0000_0000 })), 9)
    ));
    match object_of(&[19, 0x3F, 0x80, 0, 0, 0, 0, 0, 0]) {
        (Ok(Object::Vec2(v)), 9) => assert_eq!((v.x.bits, v.y.bits), (0x3F80_0000, 0)),
        other => panic!("{:?}", other),
    }
}

#[test]
fn object_point2_is_one_packed_word() {
    match object_of(&[7, 0xFF, 0xFF, 0x00, 0x02, 9]) {
        (Ok(Object::Point2(p)), 5) => assert_eq!((p.x, p.y), (-1, 2)),
        other => panic!("{:?}", other),
    }
}

#[test]
fn object_string() {
    match object_of(&[4, 1, 0, 2, b'h', b'i']) {
        (Ok(Object::String(Some(s))), 6) => assert_eq!(s, "hi"),
        other => panic!("{:?}", other),
    }
    assert!(matches!(object_of(&[4, 0]), (Ok(Object::String(None)), 2)));
    assert!(matches!(object_of(&[4]), (Ok(Object::String(None)), 1)));
}

#[test]
fn object_arrays_and_their_length_widths() {
    match object_of(&[6, 0, 2, 0, 0, 0, 1, 0, 0, 0, 2]) {
        (Ok(Object::IntSequence(v)), 11) => assert_eq!(v, vec![1, 2]),
        other => panic!("{:?}", other),
    }
    match object_of(&[8, 2, 0, 1, 0, 2, 0xFF, 0xFF, 0xFF, 0xFE]) {
        (Ok(Object::Point2Array(v)), 10) => {
            assert_eq!(v.iter().map(|p| (p.x, p.y)).collect::<Vec<_>>(), vec![(1, 2), (-1, -2)])
        }
        other => panic!("{:?}", other),
    }
    match object_of(&[14, 0, 0, 0, 3, 7, 8, 9, 1]) {
        (Ok(Object::ByteArray(v)), 8) => assert_eq!(v, vec![7, 8, 9]),
        other => panic!("{:?}", other),
    }
    match object_of(&[16, 0, 3, 0, 1, 5]) {
        (Ok(Object::BooleanArray(v)), 6) => assert_eq!(v, vec![false, true, true]),
        other => panic!("{:?}", other),
    }
    match object_of(&[18, 0, 1, 0x3F, 0x80, 0, 0, 0x40, 0, 0, 0]) {
        (Ok(Object::Vec2Array(v)), 11) => {
            assert_eq!(v.len(), 1);
            assert_eq!((v[0].x.bits, v[0].y.bits), (0x3F80_0000, 0x4000_0000));
        }
        other => panic!("{:?}", other),
    }
    match object_of(&[6, 0xFF, 0xFF, 1]) {
        (Ok(Object::IntSequence(v)), 3) => assert!(v.is_empty()),
        other => panic!("{:?}", other),
    }
}

#[test]
fn object_reserved_tags_advance_by_their_width() {
    let cases: [(&[u8], usize); 10] = [
        (&[5, 1, 0, 2, 9], 4),
        (&[9, 1, 0, 2, 9], 4),
        (&[12, 0, 0, 0, 1, 9], 5),
        (&[13, 0, 1, 9], 3),
        (&[15, 1, 9], 2),
        (&[17, 0, 0, 0, 1, 9], 5),
        (&[20, 1, 9], 2),
        (&[21, 0, 2, 0, 0, 0, 1, 0, 0, 0, 2, 9], 11),
        (&[22, 0, 2, 1, 0, 0, 0, 5, 22, 0, 1, 0, 9], 12),
        (&[23, 1, 9], 2),
    ];
    for (bytes, width) in cases {
        match object_of(bytes) {
            (Ok(Object::NotImplemented), w) => assert_eq!(w, width, "tag {}", bytes[0]),
            other => panic!("tag {}: {:?}", bytes[0], other),
        }
    }
}

#[test]
fn object_unknown_tag_is_an_error() {
    assert_eq!(object_of(&[24]).0.err(), Some(PacketError::UnknownObjectTag));
    assert_eq!(object_of(&[255, 0, 0]).0.err(), Some(PacketError::UnknownObjectTag));
    assert_eq!(object_of(&[22, 0, 1, 99]).0.err(), Some(PacketError::UnknownObjectTag));
}

#[test]
fn object_truncated_is_an_error() {
    for bytes in [
        &[][..],
        &[1, 0, 0, 0][..],
        &[2, 0][..],
        &[6, 0][..],
        &[6, 0, 2, 0, 0, 0, 1][..],
        &[8][..],
        &[8, 1, 0][..],
        &[14, 0, 0, 0, 2, 1][..],
        &[22, 0, 1][..],
    ] {
        assert_eq!(object_of(bytes).0.err(), Some(PacketError::UnexpectedEnd), "{:?}", bytes);
    }
}

#[test]
fn object_round_trip_gives_the_bytes_back() {
    let cases: [&[u8]; 14] = [
        &[0],
        &[1, 0x12, 0x34, 0x56, 0x78],
        &[2, 1, 2, 3, 4, 5, 6, 7, 8],
        &[3, 0x7F, 0xC0, 0x00, 0x01],
        &[4, 0],
        &[4, 1, 0, 2, b'h', b'i'],
        &[6, 0, 2, 0, 0, 0, 1, 0xFF, 0, 0, 2],
        &[7, 0xFF, 0xFF, 0x80, 0x00],
        &[8, 2, 0, 1, 0, 2, 0xFF, 0xFF, 0xFF, 0xFE],
        &[10, 1],
        &[11, 0x40, 9, 0x21, 0xFB, 0x54, 0x44, 0x2D, 0x18],
        &[14, 0, 0, 0, 3, 7, 8, 9],
        &[16, 0, 3, 0, 1, 1],
        &[18, 0, 1, 0x3F, 0x80, 0, 0, 0x40, 0, 0, 0],
    ];
    for bytes in cases {
        let mut with_tail = bytes.to_vec();
        with_tail.extend_from_slice(&[0xAA, 0xBB]);
        let mut r = Reader::new(with_tail);
        let o = read_object(&mut r).unwrap();
        assert_eq!(r.offset(), bytes.len());
        let mut out = Vec::new();
        write_object(&mut out, &o).unwrap();
        assert_eq!(out, bytes, "tag {}", bytes[0]);
    }
    let mut out = Vec::new();
    write_object(&mut out, &Object::Vec2(Vec2 { x: Float { bits: 1 }, y: Float { bits: 2 } })).unwrap();
    assert_eq!(out, vec![19, 0, 0, 0, 1, 0, 0, 0, 2]);
}

#[test]
fn object_writer_is_silent_for_kinds_without_a_form() {
    let mut out = vec![1];
    write_object(&mut out, &Object::NotImplemented).unwrap();
    write_object(&mut out, &Object::Unknown).unwrap();
    assert_eq!(out, vec![1]);
}

#[test]
fn object_writer_refuses_what_does_not_fit() {
    let mut out = vec![1];
    let many = Object::Point2Array(vec![Point2 { x: 0, y: 0 }; 256]);
    assert_eq!(write_object(&mut out, &many), Err(PacketError::EncodingTooLong));
    let many = Object::IntSequence(vec![0; 32768]);
    assert_eq!(write_object(&mut out, &many), Err(PacketError::EncodingTooLong));
    let long = Object::String(Some("a".repeat(65536)));
    assert_eq!(write_object(&mut out, &long), Err(PacketError::EncodingTooLong));
    assert_eq!(out, vec![1]);
    let fits = Object::Point2Array(vec![Point2 { x: 0, y: 0 }; 255]);
    assert_eq!(write_object(&mut out, &fits), Ok(()));
    assert_eq!(out.len(), 1 + 2 + 255 * 4);
}

#[test]
fn nullable_pair_is_absent_when_either_half_is_nan() {
    let one = Float { bits: 1.0f32.to_bits() };
    let nan = Float { bits: f32::NAN.to_bits() };
    assert_eq!(Vec2Nullable { x: one, y: one }.get(), Some(Vec2 { x: one, y: one }));
    assert_eq!(Vec2Nullable { x: nan, y: one }.get(), None);
    assert_eq!(Vec2Nullable { x: one, y: nan }.get(), None);
    let absent = Vec2Nullable::of(None);
    assert!(f32::from_bits(absent.x.bits).is_nan() && f32::from_bits(absent.y.bits).is_nan());
    assert_eq!(absent.get(), None);
    let present = Vec2Nullable::of(Some(Vec2 { x: one, y: one }));
    assert_eq!(present.get(), Some(Vec2 { x: one, y: one }));
}
