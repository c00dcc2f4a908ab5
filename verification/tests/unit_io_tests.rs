use mindustry_net::packet::PacketError;
use mindustry_net::tables::{BlockParam, ContentMap, Table, Tables};
use mindustry_net::type_io::{Float, Items, Object, Reader, Tile, Unit};
use mindustry_net::unit_io::{
    copy_plans, read_abilities, read_controller, read_full_unit, read_mounts, read_plan, read_plans,
    read_plans_queue, read_status, read_statuses, unit_kind_of, write_plan, write_plans, FullUnit,
    Mount, Plan, Status, UnitKind,
};

fn reader(bytes: &[u8]) -> Reader {
    Reader::new(bytes.to_vec())
}

fn tables() -> Tables {
    let mut block_types: Table<String> = Table::new();
    block_types.insert("door".to_string(), "Door".to_string());
    let block_params: Table<BlockParam> = Table::new();
    Tables { content_types: vec!["block".to_string()], block_types, block_params }
}

fn content() -> ContentMap {
    let mut c = Table::new();
    c.insert("block".to_string(), vec!["air".to_string(), "door".to_string()]);
    c
}

#[test]
fn abilities() {
    let mut r = reader(&[2, 0x3F, 0x80, 0, 0, 0x40, 0, 0, 0, 9]);
    let a = read_abilities(&mut r).unwrap();
    assert_eq!(a, vec![Float { bits: 0x3F80_0000 }, Float { bits: 0x4000_0000 }]);
    assert_eq!(r.offset(), 9);
    assert_eq!(read_abilities(&mut reader(&[1, 0])).err(), Some(PacketError::UnexpectedEnd));
    assert_eq!(read_abilities(&mut reader(&[])).err(), Some(PacketError::UnexpectedEnd));
}

#[test]
fn plan_of_type_1_has_only_a_tile() {
    let mut r = reader(&[1, 0, 3, 0xFF, 0xFF, 9]);
    let p = read_plan(&mut r).unwrap();
    assert_eq!(r.offset(), 5);
    assert_eq!(p.plan_type, 1);
    assert_eq!(p.position, Tile { x: 3, y: -1 });
    assert!(p.block.is_none() && p.rotation.is_none() && p.has_config.is_none() && p.config.is_none());
}

#[test]
fn plan_of_other_types_has_block_rotation_config() {
    let mut r = reader(&[0, 0, 3, 0, 4, 0, 7, 2, 1, 1, 0, 0, 0, 5, 9]);
    let p = read_plan(&mut r).unwrap();
    assert_eq!(r.offset(), 14);
    assert_eq!((p.plan_type, p.block, p.rotation, p.has_config), (0, Some(7), Some(2), Some(true)));
    assert!(matches!(p.config, Some(Object::Int(5))));
    let mut r = reader(&[2, 0, 3, 0, 4, 0, 7, 2, 0, 0]);
    let p = read_plan(&mut r).unwrap();
    assert_eq!((p.plan_type, p.has_config), (2, Some(false)));
    assert!(matches!(p.config, Some(Object::Null)));
}

#[test]
fn plan_errors() {
    assert_eq!(read_plan(&mut reader(&[1, 0, 3])).err(), Some(PacketError::UnexpectedEnd));
    assert_eq!(read_plan(&mut reader(&[0, 0, 3, 0, 4, 0, 7])).err(), Some(PacketError::UnexpectedEnd));
    assert_eq!(read_plan(&mut reader(&[0, 0, 3, 0, 4, 0, 7, 2, 1, 77])).err(), Some(PacketError::UnknownObjectTag));
}

#[test]
fn plan_lists_by_count_width() {
    let two = [1u8, 0, 1, 0, 2, 1, 0, 3, 0, 4];
    let mut short = vec![0, 2];
    short.extend_from_slice(&two);
    let mut r = Reader::new(short);
    assert_eq!(read_plans(&mut r).unwrap().len(), 2);
    assert_eq!(r.remaining(), 0);
    let mut wide = vec![0, 0, 0, 2];
    wide.extend_from_slice(&two);
    let mut r = Reader::new(wide);
    let plans = read_plans_queue(&mut r).unwrap();
    assert_eq!(plans.len(), 2);
    assert_eq!(plans[1].position, Tile { x: 3, y: 4 });
    assert_eq!(r.remaining(), 0);
    assert_eq!(read_plans(&mut reader(&[0xFF, 0xFF, 1])).unwrap().len(), 0);
    assert_eq!(read_plans_queue(&mut reader(&[0, 0, 0, 2, 1, 0, 1, 0, 2])).err(), Some(PacketError::UnexpectedEnd));
}

fn plan(plan_type: u8) -> Plan {
    Plan {
        plan_type,
        position: Tile { x: 3, y: -1 },
        block: Some(7),
        rotation: Some(2),
        has_config: Some(true),
        config: Some(Object::Int(5)),
    }
}

#[test]
fn plan_is_written_as_it_is_read() {
    let mut buf = Vec::new();
    write_plan(&mut buf, &plan(0)).unwrap();
    assert_eq!(buf, vec![0, 0, 3, 0xFF, 0xFF, 0, 7, 2, 1, 1, 0, 0, 0, 5]);
    let back = read_plan(&mut Reader::new(buf)).unwrap();
    assert_eq!((back.plan_type, back.position, back.block), (0, Tile { x: 3, y: -1 }, Some(7)));
    let mut buf = Vec::new();
    write_plan(&mut buf, &plan(1)).unwrap();
    assert_eq!(buf, vec![1, 0, 3, 0xFF, 0xFF]);
}

#[test]
fn plan_without_its_fields_has_no_bytes() {
    let mut p = plan(0);
    p.config = None;
    let mut buf = vec![9];
    assert_eq!(write_plan(&mut buf, &p), Err(PacketError::ProtocolError));
    assert_eq!(buf, vec![9]);
    let mut p = plan(0);
    p.config = Some(Object::String(Some("a".repeat(70000))));
    assert_eq!(write_plan(&mut buf, &p), Err(PacketError::EncodingTooLong));
    assert_eq!(buf, vec![9]);
    assert_eq!(write_plans(&mut buf, &vec![plan(1), p]), Err(PacketError::EncodingTooLong));
    assert_eq!(buf, vec![9]);
}

#[test]
fn plans_are_written_with_a_32_bit_count() {
    let mut buf = Vec::new();
    write_plans(&mut buf, &vec![plan(1), plan(1)]).unwrap();
    assert_eq!(buf, vec![0, 0, 0, 2, 1, 0, 3, 0xFF, 0xFF, 1, 0, 3, 0xFF, 0xFF]);
    let mut buf = Vec::new();
    write_plans(&mut buf, &Vec::new()).unwrap();
    assert_eq!(buf, vec![0, 0, 0, 0]);
}

#[test]
fn plans_copy_is_equal() {
    let plans = vec![plan(0), plan(1)];
    let copy = copy_plans(&plans);
    let mut a = Vec::new();
    let mut b = Vec::new();
    write_plans(&mut a, &plans).unwrap();
    write_plans(&mut b, &copy).unwrap();
    assert_eq!(a, b);
}

#[test]
fn statuses_and_mounts() {
    let mut r = reader(&[0, 0, 0, 2, 0, 1, 0x3F, 0x80, 0, 0, 0xFF, 0xFF, 0, 0, 0, 0, 9]);
    let s = read_statuses(&mut r).unwrap();
    assert_eq!(r.offset(), 16);
    assert_eq!(s, vec![Status { id: 1, time: Float { bits: 0x3F80_0000 } }, Status { id: -1, time: Float { bits: 0 } }]);
    assert_eq!(read_status(&mut reader(&[0, 2, 0, 0, 0, 1])), Status { id: 2, time: Float { bits: 1 } });
    assert_eq!(read_statuses(&mut reader(&[0, 0, 0, 1, 0])).err(), Some(PacketError::UnexpectedEnd));
    assert_eq!(read_statuses(&mut reader(&[0xFF, 0xFF, 0xFF, 0xFF])).err(), Some(PacketError::UnexpectedEnd));
    let mut r = reader(&[1, 7, 0, 0, 0, 1, 0, 0, 0, 2, 9]);
    let m = read_mounts(&mut r).unwrap();
    assert_eq!(r.offset(), 10);
    assert_eq!(m, vec![Mount { state: 7, x: Float { bits: 1 }, y: Float { bits: 2 } }]);
    assert_eq!(read_mounts(&mut reader(&[1, 7])).err(), Some(PacketError::UnexpectedEnd));
}

fn controller_width(bytes: &[u8]) -> Result<usize, PacketError> {
    let mut padded = bytes.to_vec();
    padded.push(0xEE);
    let mut r = Reader::new(padded);
    read_controller(&mut r).map(|_| r.offset())
}

#[test]
fn controller_schedules() {
    assert_eq!(controller_width(&[0, 0, 0, 0, 1]), Ok(5));
    assert_eq!(controller_width(&[1, 0, 0, 0, 1]), Ok(5));
    assert_eq!(controller_width(&[3, 0, 0, 0, 1]), Ok(5));
    assert_eq!(controller_width(&[2]), Ok(1));
    assert_eq!(controller_width(&[5]), Ok(1));
    assert_eq!(controller_width(&[4, 0, 0]), Ok(3));
    assert_eq!(controller_width(&[4, 1, 0, 9, 0, 0, 0, 1]), Ok(8));
    assert_eq!(controller_width(&[4, 0, 1, 0, 0, 0, 0, 0, 0, 0, 0]), Ok(11));
    assert_eq!(controller_width(&[4, 7, 7, 0, 0, 0, 0, 0, 0, 0, 0, 9, 0, 0, 0, 1]), Ok(16));
    assert_eq!(controller_width(&[6, 0, 0, 5]), Ok(4));
    assert_eq!(controller_width(&[7, 0, 0, 5, 0]), Ok(5));
    assert_eq!(
        controller_width(&[7, 0, 0, 5, 4, 0, 0, 0, 0, 1, 1, 0, 0, 0, 2, 2, 0, 0, 0, 0, 0, 0, 0, 0, 9]),
        Ok(25)
    );
    assert_eq!(controller_width(&[8, 0, 0, 5, 1, 0, 0, 0, 0, 1, 255]), Ok(11));
    assert_eq!(controller_width(&[8, 0, 0, 5, 0, 3]), Ok(6));
}

#[test]
fn controller_truncated() {
    for bytes in [&[][..], &[0, 0, 0][..], &[4, 1][..], &[4, 1, 0, 9][..], &[7, 0, 0, 5][..], &[7, 0, 0, 5, 1, 0, 0][..], &[8, 0, 0, 5, 0][..]] {
        let mut r = reader(bytes);
        assert_eq!(read_controller(&mut r).err(), Some(PacketError::UnexpectedEnd), "{:?}", bytes);
    }
}

#[test]
fn unit_kinds() {
    assert_eq!(unit_kind_of(0), UnitKind::UnitEntity);
    assert_eq!(unit_kind_of(4), UnitKind::MechUnit);
    assert_eq!(unit_kind_of(5), UnitKind::PayloadUnit);
    assert_eq!(unit_kind_of(10), UnitKind::Fire);
    assert_eq!(unit_kind_of(12), UnitKind::Player);
    assert_eq!(unit_kind_of(13), UnitKind::Puddle);
    assert_eq!(unit_kind_of(14), UnitKind::WeatherState);
    assert_eq!(unit_kind_of(35), UnitKind::WorldLabel);
    assert_eq!(unit_kind_of(36), UnitKind::BuildingTetherPayloadUnit);
    assert_eq!(unit_kind_of(39), UnitKind::TimedKillUnit);
    assert_eq!(unit_kind_of(46), UnitKind::CrawlUnit);
    for id in [1u8, 6, 7, 8, 9, 11, 15, 22, 28, 42, 47, 255] {
        assert_eq!(unit_kind_of(id), UnitKind::Unknown, "{}", id);
    }
}

fn floats(values: &[f32]) -> Vec<u8> {
    values.iter().flat_map(|v| v.to_be_bytes()).collect()
}

fn full(bytes: &[u8], type_id: u8, has_revision: bool, content: &Option<ContentMap>) -> (Result<FullUnit, PacketError>, usize) {
    let mut r = reader(bytes);
    let u = read_full_unit(&mut r, type_id, has_revision, content, &tables());
    (u, r.offset())
}

#[test]
fn fire_puddle_weather() {
    let mut fire = floats(&[1.0]);
    fire.extend_from_slice(&[0, 3, 0, 4]);
    fire.extend_from_slice(&floats(&[2.0, 3.0, 4.0]));
    fire.push(0xEE);
    match full(&fire, 10, false, &None) {
        (Ok(FullUnit::Fire { revision: None, lifetime, tile, time, x, y }), 20) => {
            assert_eq!(tile, Tile { x: 3, y: 4 });
            assert_eq!(
                [lifetime, time, x, y].map(|f| f32::from_bits(f.bits)),
                [1.0, 2.0, 3.0, 4.0]
            );
        }
        other => panic!("{:?}", other),
    }
    let mut puddle = floats(&[1.0]);
    puddle.extend_from_slice(&[0, 9, 0, 3, 0, 4]);
    puddle.extend_from_slice(&floats(&[2.0, 3.0]));
    match full(&puddle, 13, false, &None) {
        (Ok(FullUnit::Puddle { liquid: 9, tile: Tile { x: 3, y: 4 }, .. }), 18) => {}
        other => panic!("{:?}", other),
    }
    let mut weather = floats(&[1.0, 2.0, 3.0, 4.0]);
    weather.extend_from_slice(&[0, 2]);
    weather.extend_from_slice(&floats(&[5.0, 6.0]));
    match full(&weather, 14, false, &None) {
        (Ok(FullUnit::WeatherState { weather: 2, wind_y, .. }), 26) => assert_eq!(f32::from_bits(wind_y.bits), 6.0),
        other => panic!("{:?}", other),
    }
    assert_eq!(full(&fire[..19], 10, false, &None).0.err(), Some(PacketError::UnexpectedEnd));
}

#[test]
fn revision_comes_first_when_asked_for() {
    let mut fire = vec![0xFF, 0xFE];
    fire.extend_from_slice(&[0; 20]);
    assert!(matches!(full(&fire, 10, true, &None), (Ok(FullUnit::Fire { revision: Some(-2), .. }), 22)));
    assert_eq!(full(&[0], 10, true, &None).0.err(), Some(PacketError::UnexpectedEnd));
}

#[test]
fn unknown_kinds_read_nothing() {
    assert!(matches!(full(&[1, 2, 3], 6, false, &None), (Ok(FullUnit::Unknown), 0)));
    assert!(matches!(full(&[1, 2, 3], 200, false, &None), (Ok(FullUnit::Unknown), 0)));
    assert!(matches!(full(&[1, 2, 3], 200, true, &None), (Ok(FullUnit::Unknown), 2)));
}

fn player_bytes(name: &[u8]) -> Vec<u8> {
    let mut b = vec![1, 0, 0, 0, 0, 7];
    b.extend_from_slice(&floats(&[1.0, 2.0]));
    b.extend_from_slice(name);
    b.extend_from_slice(&[1, 3, 0, 5, 0, 0, 0, 9]);
    b.extend_from_slice(&floats(&[16.0, 24.0]));
    b
}

#[test]
fn player() {
    let bytes = player_bytes(&[1, 0, 2, b'm', b'e']);
    match full(&bytes, 12, false, &None) {
        (Ok(FullUnit::Player { admin, boosting, color, name, shooting, team, typing, unit, x, y, .. }), w) => {
            assert_eq!(w, bytes.len());
            assert_eq!((admin, boosting, color, shooting, team, typing), (true, false, 7, true, 3, false));
            assert_eq!(name, "me");
            assert_eq!(unit, Unit { unit_type: 5, id: 9 });
            assert_eq!((f32::from_bits(x.bits), f32::from_bits(y.bits)), (16.0, 24.0));
        }
        other => panic!("{:?}", other),
    }
    assert_eq!(full(&player_bytes(&[0]), 12, false, &None).0.err(), Some(PacketError::ProtocolError));
    assert_eq!(full(&bytes[..bytes.len() - 1], 12, false, &None).0.err(), Some(PacketError::UnexpectedEnd));
}

#[test]
fn world_label() {
    let mut bytes = vec![3];
    bytes.extend_from_slice(&floats(&[1.0]));
    bytes.extend_from_slice(&[1, 0, 1, b'x']);
    bytes.extend_from_slice(&floats(&[2.0, 3.0]));
    match full(&bytes, 35, false, &None) {
        (Ok(FullUnit::WorldLabel { flags: 3, str, .. }), 17) => assert_eq!(str, "x"),
        other => panic!("{:?}", other),
    }
    bytes[5] = 0;
    assert_eq!(full(&bytes, 35, false, &None).0.err(), Some(PacketError::ProtocolError));
}

fn generic_bytes(tether: bool, mech: bool, timed: bool, payloads: Option<&[u8]>) -> Vec<u8> {
    let mut b = vec![1];
    b.extend_from_slice(&floats(&[0.5, 10.0])); // one ability, ammo
    if tether {
        b.extend_from_slice(&[0, 0, 0, 77]);
    }
    if mech {
        b.extend_from_slice(&floats(&[90.0]));
    }
    b.extend_from_slice(&[0, 0, 0, 0, 1]); // controller
    b.extend_from_slice(&floats(&[1.0])); // elevation
    b.extend_from_slice(&2.0f64.to_be_bytes()); // flag
    b.extend_from_slice(&floats(&[100.0])); // health
    b.push(1); // shooting
    if timed {
        b.extend_from_slice(&floats(&[3.0]));
    }
    b.extend_from_slice(&[0, 3, 0, 4]); // mining
    b.push(0); // mounts
    if let Some(p) = payloads {
        b.extend_from_slice(p);
    }
    b.extend_from_slice(&[0, 0, 0, 1, 1, 0, 1, 0, 2]); // one plan
    b.extend_from_slice(&floats(&[45.0, 5.0])); // rotation, shield
    b.push(0); // spawned by core
    b.extend_from_slice(&[0, 2, 0, 0, 0, 9]); // items
    b.extend_from_slice(&[0, 0, 0, 0]); // statuses
    b.push(6); // team
    if timed {
        b.extend_from_slice(&floats(&[4.0]));
    }
    b.extend_from_slice(&[0, 8, 2]); // unit type, upgrade
    b.extend_from_slice(&floats(&[0.25, 0.5, 8.0, 16.0])); // velocity, x, y
    b
}

#[test]
fn generic_unit_plain() {
    let bytes = generic_bytes(false, false, false, None);
    match full(&bytes, 0, false, &None) {
        (Ok(FullUnit::GenericUnit { abilities, ammo, building, base_rotation, health, shooting, lifetime, mining_position, mounts, payloads, plans, items, statuses, team, time, unit_type, upgrade_building, velocity, x, y, .. }), w) => {
            assert_eq!(w, bytes.len());
            assert_eq!(abilities.len(), 1);
            assert_eq!(f32::from_bits(ammo.bits), 10.0);
            assert_eq!((building, base_rotation, lifetime, time), (None, None, None, None));
            assert_eq!(f32::from_bits(health.bits), 100.0);
            assert!(shooting);
            assert_eq!(mining_position, Tile { x: 3, y: 4 });
            assert!(mounts.is_empty() && payloads.is_none() && statuses.is_empty());
            assert_eq!(plans.len(), 1);
            assert_eq!(items, Items { id: 2, count: 9 });
            assert_eq!((team, unit_type, upgrade_building), (6, 8, 2));
            assert_eq!(f32::from_bits(velocity.x.bits), 0.25);
            assert_eq!((f32::from_bits(x.bits), f32::from_bits(y.bits)), (8.0, 16.0));
        }
        other => panic!("{:?}", other),
    }
    assert_eq!(full(&bytes[..bytes.len() - 1], 0, false, &None).0.err(), Some(PacketError::UnexpectedEnd));
}

#[test]
fn generic_unit_optional_fields_by_kind() {
    let bytes = generic_bytes(false, true, false, None);
    match full(&bytes, 4, false, &None) {
        (Ok(FullUnit::GenericUnit { base_rotation: Some(r), building: None, .. }), w) => {
            assert_eq!(w, bytes.len());
            assert_eq!(f32::from_bits(r.bits), 90.0);
        }
        other => panic!("{:?}", other),
    }
    let bytes = generic_bytes(false, false, true, None);
    match full(&bytes, 39, false, &None) {
        (Ok(FullUnit::GenericUnit { lifetime: Some(l), time: Some(t), .. }), w) => {
            assert_eq!(w, bytes.len());
            assert_eq!((f32::from_bits(l.bits), f32::from_bits(t.bits)), (3.0, 4.0));
        }
        other => panic!("{:?}", other),
    }
    let payloads = [0, 0, 0, 1, 1, 0, 5, 0, 0, 0, 1];
    let bytes = generic_bytes(true, false, false, Some(&payloads));
    match full(&bytes, 36, false, &Some(content())) {
        (Ok(FullUnit::GenericUnit { building: Some(77), payloads: Some(p), .. }), w) => {
            assert_eq!(w, bytes.len());
            assert_eq!(p.len(), 1);
        }
        other => panic!("{:?}", other),
    }
    let bytes = generic_bytes(false, false, false, Some(&payloads));
    assert!(matches!(full(&bytes, 5, false, &Some(content())), (Ok(FullUnit::GenericUnit { payloads: Some(_), .. }), _)));
}

#[test]
fn payload_units_need_a_content_map() {
    let payloads = [0, 0, 0, 0];
    let bytes = generic_bytes(false, false, false, Some(&payloads));
    assert_eq!(full(&bytes, 5, false, &None).0.err(), Some(PacketError::ContentMapMissing));
    assert!(full(&bytes, 5, false, &Some(content())).0.is_ok());
}
