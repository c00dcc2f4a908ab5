use mindustry_net::packet::{
    frame_packet, frame_reliable, parse_framework_packet, parse_packet, parse_regular_packet,
    parse_world_data, write_framework_packet, write_packet, write_payload, AnyPacket,
    FrameworkPacket, Packet, PacketError,
};
use mindustry_net::tables::{BlockParam, ContentMap, Table, Tables};
use mindustry_net::type_io::{Float, KickReason, Object, Reader, Tile, Unit};
use mindustry_net::unit_io::{FullUnit, Plan};
use std::io::Write;

fn tables() -> Tables {
    let mut block_types: Table<String> = Table::new();
    block_types.insert("door".to_string(), "Door".to_string());
    let block_params: Table<BlockParam> = Table::new();
    Tables {
        content_types: vec!["item".to_string(), "block".to_string()],
        block_types,
        block_params,
    }
}

fn regular(id: u8, body: &[u8]) -> Result<Packet, PacketError> {
    parse_regular_packet(id, Reader::new(body.to_vec()), &None, &tables())
}

fn frame(id: u8, body: &[u8]) -> Vec<u8> {
    let mut f = vec![id];
    f.extend_from_slice(&(body.len() as u16).to_be_bytes());
    f.push(0);
    f.extend_from_slice(body);
    f
}

#[test]
fn framework_packets_by_sub_id() {
    let parse = |b: &[u8]| parse_framework_packet(Reader::new(b.to_vec()));
    assert_eq!(parse(&[1]), Ok(FrameworkPacket::DiscoverHost));
    assert_eq!(parse(&[2]), Ok(FrameworkPacket::KeepAlive));
    assert_eq!(parse(&[3, 0x12, 0x34, 0x56, 0x78]), Ok(FrameworkPacket::RegisterUDP(0x1234_5678)));
    assert_eq!(parse(&[4, 0, 0, 0, 9]), Ok(FrameworkPacket::RegisterTCP(9)));
    assert_eq!(parse(&[0]), Err(PacketError::UnknownFrameworkPacket));
    assert_eq!(parse(&[5]), Err(PacketError::UnknownFrameworkPacket));
    assert_eq!(parse(&[]), Err(PacketError::UnexpectedEnd));
    assert_eq!(parse(&[3, 0, 0]), Err(PacketError::UnexpectedEnd));
}

#[test]
fn framework_packets_are_written_as_they_are_read() {
    assert_eq!(write_framework_packet(FrameworkPacket::RegisterUDP(0x1234_5678)), vec![0xFE, 3, 0x12, 0x34, 0x56, 0x78]);
    assert_eq!(write_framework_packet(FrameworkPacket::RegisterTCP(1)), vec![0xFE, 4, 0, 0, 0, 1]);
    assert_eq!(write_framework_packet(FrameworkPacket::KeepAlive), vec![0xFE, 2]);
    assert_eq!(write_framework_packet(FrameworkPacket::DiscoverHost), vec![0xFE, 1]);
    for p in [
        FrameworkPacket::DiscoverHost,
        FrameworkPacket::KeepAlive,
        FrameworkPacket::RegisterUDP(0xFFFF_FFFF),
        FrameworkPacket::RegisterTCP(0),
    ] {
        let bytes = write_framework_packet(p);
        match parse_packet(bytes, &None, &tables()) {
            Ok(AnyPacket::Framework(q)) => assert_eq!(q, p),
            other => panic!("{:?}", other),
        }
    }
}

#[test]
fn reliable_frame_puts_the_length_in_front() {
    assert_eq!(frame_reliable(&vec![0xFE, 2]), Ok(vec![0, 2, 0xFE, 2]));
    assert_eq!(frame_reliable(&Vec::new()), Ok(vec![0, 0]));
    assert_eq!(frame_reliable(&vec![0; 65536]), Err(PacketError::EncodingTooLong));
    assert_eq!(frame_reliable(&vec![7; 65535]).unwrap().len(), 65537);
}

#[test]
fn stream_packets() {
    assert!(matches!(regular(0, &[0, 0, 0, 7, 0, 0, 0, 3, 73]), Ok(Packet::StreamBegin { id: 7, total: 3, stream_type: 73 })));
    match regular(1, &[0, 0, 0, 7, 0, 2, 5, 6, 7]) {
        Ok(Packet::StreamChunk { id: 7, data }) => assert_eq!(data, vec![5, 6]),
        other => panic!("{:?}", other),
    }
    match regular(1, &[0, 0, 0, 7, 0, 9, 5, 6]) {
        Ok(Packet::StreamChunk { data, .. }) => assert_eq!(data, vec![5, 6]),
        other => panic!("{:?}", other),
    }
    match regular(1, &[0, 0, 0, 7, 0xFF, 0xFF, 5, 6]) {
        Ok(Packet::StreamChunk { data, .. }) => assert_eq!(data, vec![5, 6]),
        other => panic!("{:?}", other),
    }
    assert_eq!(regular(0, &[0; 8]).err(), Some(PacketError::UnexpectedEnd));
    assert_eq!(regular(1, &[0; 5]).err(), Some(PacketError::UnexpectedEnd));
}

#[test]
fn building_packets() {
    match regular(9, &[5, 0, 0, 0, 9, 2, 0, 0, 0, 3, 0, 0, 0, 4]) {
        Ok(Packet::BeginBreak { unit, team: 2, x: 3, y: 4 }) => assert_eq!(unit, Unit { unit_type: 5, id: 9 }),
        other => panic!("{:?}", other),
    }
    match regular(10, &[5, 0, 0, 0, 9, 0, 7, 2, 0, 0, 0, 3, 0, 0, 0, 4, 0, 0, 0, 1]) {
        Ok(Packet::BeginPlace { result: 7, team: 2, x: 3, y: 4, rotation: 1, .. }) => {}
        other => panic!("{:?}", other),
    }
    match regular(23, &[0, 3, 0, 4, 0, 7, 5, 0, 0, 0, 9, 1, 2, 10, 1]) {
        Ok(Packet::ConstructFinish { tile, block: 7, builder, rotation: 1, team: 2, config: Object::Boolean(true) }) => {
            assert_eq!(tile, Tile { x: 3, y: 4 });
            assert_eq!(builder, Unit { unit_type: 5, id: 9 });
        }
        other => panic!("{:?}", other),
    }
    assert!(matches!(regular(69, &[0, 0, 0, 9, 0, 3, 0, 4, 2]), Ok(Packet::RotateBlockCall { entity: 9, tile: Tile { x: 3, y: 4 }, rotation: 2 })));
    assert!(matches!(regular(59, &[0, 3, 0xFF, 0xFF, 0, 0, 0, 9]), Ok(Packet::SpawnCall { tile_x: 3, tile_y: -1, entity: 9 })));
    assert!(matches!(regular(99, &[0, 0, 0, 9, 0, 3, 0, 4, 0]), Ok(Packet::TileConfigCall { player: 9, value: Object::Null, .. })));
    match regular(11, &[0, 2, 0, 3, 7, 8, 9, 1]) {
        Ok(Packet::BlockSnapshot { amount: 2, data }) => assert_eq!(data, vec![7, 8, 9]),
        other => panic!("{:?}", other),
    }
    assert_eq!(regular(23, &[0; 13]).err(), Some(PacketError::UnexpectedEnd));
    assert_eq!(regular(23, &[0, 3, 0, 4, 0, 7, 5, 0, 0, 0, 9, 1, 2, 99]).err(), Some(PacketError::UnknownObjectTag));
    assert_eq!(regular(10, &[0; 19]).err(), Some(PacketError::UnexpectedEnd));
}

#[test]
fn kick_and_chat_packets() {
    match regular(44, &[1, 0, 3, b'b', b'y', b'e']) {
        Ok(Packet::KickCall { reason }) => assert_eq!(reason, "bye"),
        other => panic!("{:?}", other),
    }
    assert_eq!(regular(44, &[0]).err(), Some(PacketError::ProtocolError));
    assert!(matches!(regular(45, &[3]), Ok(Packet::KickCall2 { reason: KickReason::Banned })));
    assert!(matches!(regular(45, &[15]), Ok(Packet::KickCall2 { reason: KickReason::ServerRestarting })));
    assert_eq!(regular(45, &[16]).err(), Some(PacketError::UnknownKickReason));
    assert_eq!(regular(45, &[]).err(), Some(PacketError::UnexpectedEnd));
    match regular(73, &[1, 0, 5, b'h', b'e', b'l', b'l', b'o', 0, 0, 0, 0, 0x2A]) {
        Ok(Packet::SendMessageCall2 { message, unformatted: None, sender: 42 }) => assert_eq!(message, "hello"),
        other => panic!("{:?}", other),
    }
    match regular(73, &[1, 0, 1, b'a', 1, 0, 1, b'b', 0, 0, 0, 1]) {
        Ok(Packet::SendMessageCall2 { message, unformatted: Some(u), sender: 1 }) => assert_eq!((message.as_str(), u.as_str()), ("a", "b")),
        other => panic!("{:?}", other),
    }
    assert_eq!(regular(73, &[1, 0, 1, b'a', 0, 0, 0]).err(), Some(PacketError::UnexpectedEnd));
}

#[test]
fn state_snapshot() {
    let mut body = 1.0f32.to_be_bytes().to_vec();
    body.extend_from_slice(&[0, 0, 0, 2, 0, 0, 0, 3, 1, 0, 0, 0, 0, 4, 60]);
    body.extend_from_slice(&5u64.to_be_bytes());
    body.extend_from_slice(&6u64.to_be_bytes());
    body.extend_from_slice(&[0, 2, 8, 9]);
    match regular(94, &body) {
        Ok(Packet::StateSnapshot { wave_time, wave: 2, enemies: 3, paused: true, game_over: false, time_data: 4, tps: 60, rand0: 5, rand1: 6, core_data }) => {
            assert_eq!(wave_time.bits, 1.0f32.to_bits());
            assert_eq!(core_data, vec![8, 9]);
        }
        other => panic!("{:?}", other),
    }
}

#[test]
fn other_ids_are_other() {
    assert!(matches!(regular(3, &[1, 2]), Ok(Packet::Other(3))));
    assert!(matches!(regular(200, &[]), Ok(Packet::Other(200))));
    assert!(matches!(regular(18, &[]), Ok(Packet::Other(18))));
}

#[test]
fn entity_snapshot_reads_units_in_their_own_bytes() {
    let mut units = vec![0, 0, 0, 9, 10];
    units.extend_from_slice(&[0; 20]);
    units.extend_from_slice(&[0, 0, 0, 8, 200]);
    let mut body = vec![0, 2];
    body.extend_from_slice(&(units.len() as i16).to_be_bytes());
    body.extend_from_slice(&units);
    body.extend_from_slice(&[0xEE; 30]);
    match regular(34, &body) {
        Ok(Packet::EntitySnapshot { units }) => {
            assert_eq!(units.len(), 2);
            assert_eq!(units[0].id, 9);
            assert!(matches!(units[0].unit, FullUnit::Fire { .. }));
            assert_eq!(units[1].id, 8);
            assert!(matches!(units[1].unit, FullUnit::Unknown));
        }
        other => panic!("{:?}", other),
    }
    // the third unit would lie outside the counted bytes
    body[1] = 3;
    assert_eq!(regular(34, &body).err(), Some(PacketError::UnexpectedEnd));
    assert_eq!(regular(34, &[0, 1]).err(), Some(PacketError::UnexpectedEnd));
}

#[test]
fn entity_snapshot_without_content_map() {
    // a payload unit (type 5) cannot be decoded without a content map
    let mut unit = vec![0, 0, 0, 9, 5];
    unit.push(0); // abilities
    unit.extend_from_slice(&[0; 4]); // ammo
    unit.push(9); // controller without a record
    unit.extend_from_slice(&[0; 21]);
    unit.push(0); // mounts
    let mut body = vec![0, 1];
    body.extend_from_slice(&(unit.len() as i16).to_be_bytes());
    body.extend_from_slice(&unit);
    assert_eq!(regular(34, &body).err(), Some(PacketError::ContentMapMissing));
}

#[test]
fn frames_uncompressed() {
    match parse_packet(frame(45, &[3]), &None, &tables()) {
        Ok(AnyPacket::Regular(Packet::KickCall2 { reason: KickReason::Banned })) => {}
        other => panic!("{:?}", other),
    }
    assert_eq!(parse_packet(vec![], &None, &tables()).err(), Some(PacketError::UnexpectedEnd));
    assert_eq!(parse_packet(vec![45, 0, 1], &None, &tables()).err(), Some(PacketError::UnexpectedEnd));
    assert_eq!(parse_packet(vec![0xFE, 9], &None, &tables()).err(), Some(PacketError::UnknownFrameworkPacket));
}

#[test]
fn frames_compressed_with_lz4() {
    let body = [1u8, 0, 5, b'h', b'e', b'l', b'l', b'o', 0, 0, 0, 0, 0x2A];
    let packed = lz4::block::compress(&body, None, false).unwrap();
    let mut f = vec![73];
    f.extend_from_slice(&(body.len() as u16).to_be_bytes());
    f.push(1);
    f.extend_from_slice(&packed);
    match parse_packet(f.clone(), &None, &tables()) {
        Ok(AnyPacket::Regular(Packet::SendMessageCall2 { message, sender: 42, .. })) => assert_eq!(message, "hello"),
        other => panic!("{:?}", other),
    }
    // a declared length that the block does not expand to
    f[2] = (body.len() + 1) as u8;
    assert_eq!(parse_packet(f.clone(), &None, &tables()).err(), Some(PacketError::DecompressionFailed));
    f[2] = (body.len() - 1) as u8;
    assert_eq!(parse_packet(f, &None, &tables()).err(), Some(PacketError::DecompressionFailed));
    assert_eq!(parse_packet(vec![73, 0, 9, 1, 0xFF, 0xFF, 0xFF], &None, &tables()).err(), Some(PacketError::DecompressionFailed));
}

fn world_bytes() -> Vec<u8> {
    let mut d = vec![0, 2, b'{', b'}']; // rules
    d.extend_from_slice(&[0, 1, 0, 1, b'k', 0, 1, b'v']); // string map
    d.extend_from_slice(&[0, 0, 0, 3]); // wave
    d.extend_from_slice(&1.5f32.to_be_bytes());
    d.extend_from_slice(&2.5f64.to_be_bytes());
    d.extend_from_slice(&7u64.to_be_bytes());
    d.extend_from_slice(&8u64.to_be_bytes());
    d.extend_from_slice(&[0, 0, 0, 42]); // player id
    d.extend_from_slice(&[0xAA; 17]);
    d.extend_from_slice(&[1, 0, 1, b'x']);
    d.extend_from_slice(&[0xBB; 16]);
    d.extend_from_slice(&[1, 1, 0, 2, 0, 3, b'a', b'i', b'r', 0, 4, b'd', b'o', b'o', b'r']);
    d.extend_from_slice(&[0, 2, 0, 1]); // map 2 x 1
    d.extend_from_slice(&[0, 7, 0, 0, 1]); // floors
    d.extend_from_slice(&[0, 1, 1, 1, 0, 9, 0, 0x3F, 0x80, 0, 0, 1, 2, 0, 1]); // a door
    d.extend_from_slice(&[0, 0, 0, 0]); // air
    d.extend_from_slice(&[1, 2, 3]); // what follows the map
    d
}

#[test]
fn world_data() {
    match parse_world_data(world_bytes(), &tables()) {
        Ok(Packet::WorldStream { wave, wave_time, tick, seed0, seed1, id, content_map, map }) => {
            assert_eq!((wave, seed0, seed1, id), (3, 7, 8, 42));
            assert_eq!(f32::from_bits(wave_time.bits), 1.5);
            assert_eq!(f64::from_bits(tick.bits), 2.5);
            assert_eq!(content_map.entries.len(), 1);
            assert_eq!(content_map.entries[0].name, "block");
            assert_eq!((map.width, map.height), (2, 1));
            assert_eq!(map.tiles[0].floor, 7);
            assert_eq!(map.tiles[0].block.as_ref().unwrap().block_type, "Door");
        }
        other => panic!("{:?}", other),
    }
    let mut cut = world_bytes();
    cut.truncate(40);
    assert_eq!(parse_world_data(cut, &tables()).err(), Some(PacketError::UnexpectedEnd));
    assert_eq!(parse_world_data(vec![0], &tables()).err(), Some(PacketError::UnexpectedEnd));
}

#[test]
fn world_stream_is_a_zlib_stream() {
    let mut enc = flate2::write::ZlibEncoder::new(Vec::new(), flate2::Compression::default());
    enc.write_all(&world_bytes()).unwrap();
    let blob = enc.finish().unwrap();
    match regular(2, &blob) {
        Ok(Packet::WorldStream { id: 42, map, .. }) => assert_eq!(map.tiles.len(), 2),
        other => panic!("{:?}", other),
    }
    match parse_packet(frame(2, &blob), &None, &tables()) {
        Ok(AnyPacket::Regular(Packet::WorldStream { wave: 3, .. })) => {}
        other => panic!("{:?}", other),
    }
    assert_eq!(regular(2, &world_bytes()).err(), Some(PacketError::WorldDataDecompressionFailed));
    assert_eq!(regular(2, &blob[..blob.len() / 2]).err(), Some(PacketError::WorldDataDecompressionFailed));
    assert_eq!(regular(2, &[]).err(), Some(PacketError::WorldDataDecompressionFailed));
}

fn snapshot(plans: Vec<Plan>) -> Packet {
    let f = |v: f32| Float { bits: v.to_bits() };
    Packet::ClientSnapshot {
        snapshot_id: 1,
        unit_id: 2,
        dead: false,
        x: f(1.0),
        y: f(2.0),
        pointer_x: f(3.0),
        pointer_y: f(4.0),
        rotation: f(5.0),
        base_rotation: f(6.0),
        x_velocity: f(7.0),
        y_velocity: f(8.0),
        mining_x: 9,
        mining_y: 10,
        boosting: true,
        shooting: false,
        chatting: true,
        building: false,
        plans,
        view_x: f(11.0),
        view_y: f(12.0),
        view_width: f(13.0),
        view_height: f(14.0),
    }
}

fn removal(x: i16) -> Plan {
    Plan { plan_type: 1, position: Tile { x, y: 0 }, block: None, rotation: None, has_config: None, config: None }
}

#[test]
fn client_snapshot_layout() {
    let (id, body) = write_payload(&snapshot(vec![removal(3)]), None).unwrap();
    assert_eq!(id, 18);
    let mut want = vec![0, 0, 0, 1, 0, 0, 0, 2, 0];
    for v in [1.0f32, 2.0, 3.0, 4.0, 5.0, 6.0, 7.0, 8.0] {
        want.extend_from_slice(&v.to_be_bytes());
    }
    want.extend_from_slice(&[0, 9, 0, 10, 1, 0, 1, 0]);
    want.extend_from_slice(&[0, 0, 0, 1, 1, 0, 3, 0, 0]);
    for v in [11.0f32, 12.0, 13.0, 14.0] {
        want.extend_from_slice(&v.to_be_bytes());
    }
    assert_eq!(body, want);
}

#[test]
fn compressed_frame_round_trip() {
    let packet = snapshot((0..50).map(removal).collect());
    let (_, body) = write_payload(&packet, None).unwrap();
    let bytes = write_packet(&packet).unwrap();
    let outer = u16::from_be_bytes([bytes[0], bytes[1]]) as usize;
    assert_eq!(outer, bytes.len() - 2);
    assert_eq!(bytes[2], 18);
    let declared = u16::from_be_bytes([bytes[3], bytes[4]]) as usize;
    assert_eq!(declared, body.len());
    assert_eq!(bytes[5], 0x01);
    let unpacked = lz4::block::decompress(&bytes[6..], Some(declared as i32)).unwrap();
    assert_eq!(unpacked.len(), declared);
    assert_eq!(unpacked, body);
    assert_ne!(&bytes[6..], &body[..]);
    assert!(parse_packet(bytes[2..].to_vec(), &None, &tables()).is_ok());
}

#[test]
fn frames_are_packed_only_beyond_35_bytes() {
    for n in [0usize, 1, 30, 31] {
        let body = vec![7u8; n];
        let f = frame_packet(9, &body, None).unwrap();
        assert_eq!(f.len(), n + 6);
        assert_eq!(u16::from_be_bytes([f[0], f[1]]) as usize, n + 4);
        assert_eq!(f[2], 9);
        assert_eq!(u16::from_be_bytes([f[3], f[4]]) as usize, n);
        assert_eq!(f[5], 0);
        assert_eq!(&f[6..], &body[..]);
    }
    for n in [32usize, 35, 36, 1000] {
        let body = vec![7u8; n];
        let packed = vec![1u8, 2, 3];
        let f = frame_packet(9, &body, Some(&packed)).unwrap();
        assert_eq!(u16::from_be_bytes([f[0], f[1]]), 7);
        assert_eq!(u16::from_be_bytes([f[3], f[4]]) as usize, n);
        assert_eq!(f[5], 1);
        assert_eq!(&f[6..], &packed[..]);
        assert_eq!(frame_packet(9, &body, None), Err(PacketError::EncodingTooLong));
    }
    assert_eq!(frame_packet(9, &vec![0; 65536], Some(&vec![1])), Err(PacketError::EncodingTooLong));
    assert_eq!(frame_packet(9, &vec![0; 100], Some(&vec![1; 65532])), Err(PacketError::EncodingTooLong));
    assert!(frame_packet(9, &vec![0; 65535], Some(&vec![1; 65531])).is_ok());
}

#[test]
fn short_packets_travel_unpacked() {
    assert_eq!(write_packet(&Packet::ConnectCallConfirm), Ok(vec![0, 4, 22, 0, 0, 0]));
    let chat = Packet::SendChatMessageCall { message: "hi".to_string() };
    assert_eq!(write_packet(&chat), Ok(vec![0, 9, 71, 0, 5, 0, 1, 0, 2, b'h', b'i']));
    assert_eq!(write_packet(&Packet::Other(7)), Ok(vec![0, 4, 0, 0, 0, 0]));
    let long = Packet::SendChatMessageCall { message: "x".repeat(70000) };
    assert_eq!(write_packet(&long), Err(PacketError::EncodingTooLong));
}

fn connect(uuid: &str, mods: Vec<String>) -> Packet {
    Packet::Connect {
        version: 146,
        client: "official".to_string(),
        name: "Swarm".to_string(),
        lang: "en".to_string(),
        usid: "USIGAAAAAAA=".to_string(),
        uuid: uuid.to_string(),
        mobile: true,
        color: vec![0xff, 0xa1, 0x08, 0xff],
        mods,
    }
}

#[test]
fn connect_layout() {
    let uuid: Vec<u8> = (1..=16).collect();
    let (id, body) = write_payload(&connect("ignored", vec!["m".to_string()]), Some(&uuid)).unwrap();
    assert_eq!(id, 3);
    let mut want = vec![0, 0, 0, 146];
    for s in ["official", "Swarm", "en", "USIGAAAAAAA="] {
        want.push(1);
        want.extend_from_slice(&(s.len() as u16).to_be_bytes());
        want.extend_from_slice(s.as_bytes());
    }
    want.extend_from_slice(&uuid);
    want.extend_from_slice(&[0; 8]);
    want.push(1);
    want.extend_from_slice(&[0xff, 0xa1, 0x08, 0xff]);
    want.extend_from_slice(&[1, 1, 0, 1, b'm']);
    assert_eq!(body, want);
    assert_eq!(write_payload(&connect("x", vec![]), None).err(), Some(PacketError::ProtocolError));
    assert_eq!(write_payload(&connect("x", vec![String::new(); 256]), Some(&uuid)).err(), Some(PacketError::EncodingTooLong));
}

#[test]
fn connect_decodes_its_unique_id_from_base64() {
    let bytes = write_packet(&connect("AQIDBAUGBwgJCgsMDQ4PEA==", vec![])).unwrap();
    assert_eq!(bytes[2], 3);
    assert_eq!(bytes[5], 1);
    let declared = u16::from_be_bytes([bytes[3], bytes[4]]) as usize;
    let body = lz4::block::decompress(&bytes[6..], Some(declared as i32)).unwrap();
    let uuid: Vec<u8> = (1..=16).collect();
    let (_, want) = write_payload(&connect("", vec![]), Some(&uuid)).unwrap();
    assert_eq!(body, want);
    assert!(body.windows(16).any(|w| w == &uuid[..]));
    assert_eq!(write_packet(&connect("not base64!", vec![])).err(), Some(PacketError::ProtocolError));
}

#[test]
fn content_map_is_a_table() {
    let mut c: ContentMap = Table::new();
    c.insert("block".to_string(), vec!["a".to_string()]);
    c.insert("unit".to_string(), vec![]);
    c.insert("block".to_string(), vec!["b".to_string()]);
    assert_eq!(c.find("block"), Some(2));
    assert_eq!(c.find("unit"), Some(1));
    assert_eq!(c.find("item"), None);
}

#[test]
fn written_packets_are_packed_from_32_bytes_of_body_on() {
    let short = Packet::SendChatMessageCall { message: "a".repeat(28) };
    let bytes = write_packet(&short).unwrap();
    assert_eq!(bytes.len(), 2 + 4 + 31);
    assert_eq!(&bytes[..6], &[0, 35, 71, 0, 31, 0]);
    assert_eq!(&bytes[6..9], &[1, 0, 28]);
    let long = Packet::SendChatMessageCall { message: "a".repeat(29) };
    let bytes = write_packet(&long).unwrap();
    assert_eq!(u16::from_be_bytes([bytes[0], bytes[1]]) as usize, bytes.len() - 2);
    assert_eq!(&bytes[2..6], &[71, 0, 32, 1]);
    let body = lz4::block::decompress(&bytes[6..], Some(32)).unwrap();
    assert_eq!(&body[..3], &[1, 0, 29]);
    assert_eq!(body.len(), 32);
    match parse_packet(bytes[2..].to_vec(), &None, &tables()) {
        Ok(AnyPacket::Regular(Packet::Other(71))) => {}
        other => panic!("{:?}", other),
    }
}
