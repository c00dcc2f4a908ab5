use mindustry_net::block_io::SpecificBlockData;
use mindustry_net::client::{ClientEvent, Note, Reaction, Session};
use mindustry_net::packet::{
    write_framework_packet, FrameworkPacket, Packet, PacketError, UnitEntry,
};
use mindustry_net::save_io::TileMap;
use mindustry_net::stream_builder::StreamBuilder;
use mindustry_net::tables::{str_begins_with, str_eq, BlockParam, ContentMap, Table, Tables};
use mindustry_net::type_io::{Float, KickReason, Object, Tile, Unit};
use mindustry_net::unit_io::{FullUnit, Plan};

fn tables() -> Tables {
    let mut block_types: Table<String> = Table::new();
    block_types.insert("door".to_string(), "Door".to_string());
    block_types.insert("wall".to_string(), "Wall".to_string());
    let block_params: Table<BlockParam> = Table::new();
    Tables { content_types: vec!["item".to_string(), "block".to_string()], block_types, block_params }
}

fn content() -> ContentMap {
    let mut c = Table::new();
    c.insert(
        "block".to_string(),
        vec!["air".to_string(), "door".to_string(), "wall".to_string(), "mystery".to_string()],
    );
    c
}

fn session() -> Session {
    Session::new("Swarm".to_string(), None)
}

fn with_map(width: u32, height: u32) -> Session {
    let mut s = session();
    let r = s.handle_regular_packet(
        Packet::WorldStream {
            wave: 0,
            wave_time: Float { bits: 0 },
            tick: mindustry_net::type_io::Double { bits: 0 },
            seed0: 0,
            seed1: 0,
            id: 42,
            content_map: content(),
            map: TileMap::new(width, height),
        },
        &tables(),
    );
    assert!(matches!(r.events[..], [ClientEvent::MapLoaded]));
    s
}

fn handle(s: &mut Session, p: Packet) -> Reaction {
    s.handle_regular_packet(p, &tables())
}

fn changed(r: &Reaction) -> Vec<Tile> {
    r.events
        .iter()
        .map(|e| match e {
            ClientEvent::BlockChanged { tile } => *tile,
            other => panic!("{:?}", other),
        })
        .collect()
}

#[test]
fn new_session_knows_nothing() {
    let s = session();
    assert_eq!(s.state.player_id, 0);
    assert_eq!(s.state.unit, Unit { unit_type: 0, id: 0 });
    assert_eq!(f32::from_bits(s.state.x.bits), -1.0);
    assert_eq!(f32::from_bits(s.state.y.bits), -1.0);
    assert!(!s.state.chatting);
    assert!(s.state.plans.is_empty() && s.state.units.is_empty() && s.streams.is_empty());
    assert_eq!((s.state.map.width, s.state.map.height), (0, 0));
    assert!(s.content_map.is_none());
    assert_eq!(s.username, "Swarm");
    assert!(Session::new("a".to_string(), Some(content())).content_map.is_some());
}

#[test]
fn handshake_register_tcp_is_answered_on_datagram() {
    let s = session();
    let h = s.handle_framework_packet(FrameworkPacket::RegisterTCP(0x1234_5678)).unwrap();
    assert_eq!(h.out.len(), 1);
    assert!(!h.out[0].reliable);
    assert_eq!(h.out[0].packet, vec![0xFE, 0x03, 0x12, 0x34, 0x56, 0x78]);
    assert_eq!(h.out[0].packet, write_framework_packet(FrameworkPacket::RegisterUDP(0x1234_5678)));
    assert!(!h.start_snapshots);
    for quiet in [FrameworkPacket::KeepAlive, FrameworkPacket::DiscoverHost] {
        let h = s.handle_framework_packet(quiet).unwrap();
        assert!(h.out.is_empty() && !h.start_snapshots);
    }
}

#[test]
fn post_register_flood() {
    let s = session();
    let h = s.handle_framework_packet(FrameworkPacket::RegisterUDP(0x1234_5678)).unwrap();
    assert!(h.start_snapshots);
    assert_eq!(h.out.len(), 2);
    assert!(h.out[0].reliable && h.out[1].reliable);
    let connect = &h.out[0].packet;
    assert_eq!(u16::from_be_bytes([connect[0], connect[1]]) as usize, connect.len() - 2);
    assert_eq!(connect[2], 3);
    assert_eq!(connect[5], 1);
    let declared = u16::from_be_bytes([connect[3], connect[4]]) as usize;
    let body = lz4::block::decompress(&connect[6..], Some(declared as i32)).unwrap();
    assert_eq!(&body[..4], &[0, 0, 0, 146]);
    assert_eq!(&body[4..15], &[1, 0, 8, b'o', b'f', b'f', b'i', b'c', b'i', b'a', b'l']);
    assert_eq!(&body[15..23], &[1, 0, 5, b'S', b'w', b'a', b'r', b'm']);
    assert_eq!(h.out[1].packet, vec![0, 4, 22, 0, 0, 0]);

    // within the first 200 ms: one snapshot, nothing else
    let first = s.snapshot_tick(1).unwrap();
    assert_eq!(first.out.len(), 1);
    assert!(first.out[0].reliable);
    assert_eq!(first.out[0].packet[2], 18);
    for i in 2..5 {
        assert_eq!(s.snapshot_tick(i).unwrap().out.len(), 1);
    }
    // at the 1000 ms mark: the fifth snapshot and a keep-alive, both reliable
    let fifth = s.snapshot_tick(5).unwrap();
    assert_eq!(fifth.out.len(), 2);
    assert_eq!(fifth.out[0].packet[2], 18);
    assert!(fifth.out[1].reliable);
    assert_eq!(fifth.out[1].packet, vec![0, 2, 0xFE, 2]);
    // every fifteenth tick one more keep-alive, as a datagram
    let fifteenth = s.snapshot_tick(15).unwrap();
    assert_eq!(fifteenth.out.len(), 3);
    assert!(!fifteenth.out[2].reliable);
    assert_eq!(fifteenth.out[2].packet, vec![0xFE, 2]);
    assert_eq!(s.snapshot_tick(10).unwrap().out.len(), 2);
}

#[test]
fn snapshot_reports_the_session() {
    let mut s = with_map(1, 1);
    s.state.unit = Unit { unit_type: 5, id: 77 };
    s.state.x = Float { bits: 8.0f32.to_bits() };
    s.state.y = Float { bits: 16.0f32.to_bits() };
    s.state.chatting = true;
    s.state.plans.push(Plan { plan_type: 1, position: Tile { x: 1, y: 2 }, block: None, rotation: None, has_config: None, config: None });
    let tick = s.snapshot_tick(363).unwrap();
    match tick.snapshot {
        Packet::ClientSnapshot { snapshot_id, unit_id, dead, x, y, pointer_x, pointer_y, rotation, base_rotation, chatting, building, plans, view_width, view_height, .. } => {
            assert_eq!((snapshot_id, unit_id, dead, chatting, building), (363, 77, false, true, true));
            assert_eq!((x.bits, y.bits), (8.0f32.to_bits(), 16.0f32.to_bits()));
            assert_eq!((pointer_x, pointer_y), (x, y));
            assert_eq!(f32::from_bits(rotation.bits), 150.0);
            assert_eq!(base_rotation.bits, 0);
            assert_eq!(plans.len(), 1);
            assert_eq!((f32::from_bits(view_width.bits), f32::from_bits(view_height.bits)), (1920.0, 1080.0));
        }
        other => panic!("{:?}", other),
    }
}

#[test]
fn stream_reassembly() {
    let mut s = session();
    let r = handle(&mut s, Packet::StreamBegin { id: 7, total: 3, stream_type: 73 });
    assert!(r.events.is_empty() && r.requeue.is_none() && r.notes.is_empty());
    assert_eq!(s.streams.len(), 1);
    let chunk = vec![0x01, 0x00, 0x05, 0x68, 0x65, 0x6C, 0x6C, 0x6F, 0x00, 0x00, 0x00, 0x00, 0x2A];
    let r = handle(&mut s, Packet::StreamChunk { id: 7, data: chunk });
    assert!(s.streams.is_empty());
    let packet = r.requeue.expect("the stream is complete");
    match &packet {
        Packet::SendMessageCall2 { message, unformatted, sender } => {
            assert_eq!(message, "hello");
            assert_eq!(unformatted, &None);
            assert_eq!(*sender, 42);
        }
        other => panic!("{:?}", other),
    }
    let r = handle(&mut s, packet);
    match &r.events[..] {
        [ClientEvent::ChatMessage { message, unformatted: None, sender: 42 }] => assert_eq!(message, "hello"),
        other => panic!("{:?}", other),
    }
}

#[test]
fn stream_whose_text_is_marked_absent_fails() {
    let mut s = session();
    handle(&mut s, Packet::StreamBegin { id: 7, total: 3, stream_type: 73 });
    let chunk = vec![0x00, 0x01, 0x00, 0x00, 0x05, 0x68, 0x65, 0x6C, 0x6C, 0x6F, 0x00, 0x00, 0x00, 0x00, 0x2A];
    let r = handle(&mut s, Packet::StreamChunk { id: 7, data: chunk });
    assert!(r.requeue.is_none() && r.events.is_empty());
    assert_eq!(r.notes, vec![Note::StreamFailed(7, PacketError::ProtocolError)]);
    assert!(s.streams.is_empty());
}

#[test]
fn stream_fires_once_with_the_chunk_that_completes_it() {
    let mut s = session();
    handle(&mut s, Packet::StreamBegin { id: 1, total: 6, stream_type: 45 });
    handle(&mut s, Packet::StreamBegin { id: 2, total: 1, stream_type: 45 });
    let r = handle(&mut s, Packet::StreamChunk { id: 1, data: vec![3, 0] });
    assert!(r.requeue.is_none() && r.notes.is_empty());
    let r = handle(&mut s, Packet::StreamChunk { id: 1, data: vec![0, 0, 0] });
    assert!(r.requeue.is_none());
    assert_eq!(s.streams.len(), 2);
    let r = handle(&mut s, Packet::StreamChunk { id: 1, data: vec![0] });
    assert!(matches!(r.requeue, Some(Packet::KickCall2 { reason: KickReason::Banned })));
    assert_eq!(s.streams.len(), 1);
    assert_eq!(s.streams[0].id, 2);
    // what still comes for the stream is dropped
    let r = handle(&mut s, Packet::StreamChunk { id: 1, data: vec![0; 9] });
    assert!(r.requeue.is_none());
    assert_eq!(r.notes, vec![Note::StreamNotFound(1)]);
    let r = handle(&mut s, Packet::StreamChunk { id: 9, data: vec![] });
    assert_eq!(r.notes, vec![Note::StreamNotFound(9)]);
}

#[test]
fn stream_of_no_bytes_fires_with_its_first_chunk() {
    let mut s = session();
    handle(&mut s, Packet::StreamBegin { id: 1, total: 0, stream_type: 200 });
    let r = handle(&mut s, Packet::StreamChunk { id: 1, data: vec![] });
    assert!(matches!(r.requeue, Some(Packet::Other(200))));
}

#[test]
fn stream_begin_replaces_a_stream_of_the_same_id() {
    let mut s = session();
    handle(&mut s, Packet::StreamBegin { id: 1, total: 9, stream_type: 45 });
    handle(&mut s, Packet::StreamChunk { id: 1, data: vec![1, 2] });
    handle(&mut s, Packet::StreamBegin { id: 1, total: 1, stream_type: 45 });
    assert_eq!(s.streams.len(), 1);
    let r = handle(&mut s, Packet::StreamChunk { id: 1, data: vec![0] });
    assert!(matches!(r.requeue, Some(Packet::KickCall2 { reason: KickReason::Kick })));
}

#[test]
fn stream_builder_by_itself() {
    let mut b = StreamBuilder::new(7, 45, 2);
    assert_eq!(b.id, 7);
    assert!(!b.is_done());
    b.add(vec![3]);
    assert!(!b.is_done());
    b.add(vec![0]);
    assert!(b.is_done());
    assert!(matches!(b.build(&None, &tables()), Ok(Packet::KickCall2 { reason: KickReason::Banned })));
    assert!(StreamBuilder::new(1, 0, 0).is_done());
}

#[test]
fn world_stream_installs_map_and_content() {
    let s = with_map(3, 2);
    assert_eq!(s.state.player_id, 42);
    assert_eq!((s.state.map.width, s.state.map.height), (3, 2));
    assert!(s.content_map.is_some());
}

#[test]
fn begin_place_puts_a_placeholder() {
    let mut s = with_map(3, 2);
    let place = Packet::BeginPlace { unit: Unit { unit_type: 0, id: 1 }, result: 1, team: 4, x: 2, y: 1, rotation: 259 };
    let r = handle(&mut s, place);
    assert!(r.events.is_empty() && r.notes.is_empty());
    let tile = &s.state.map.tiles[5];
    assert_eq!(tile.block_id, Some(1));
    let block = tile.block.as_ref().unwrap();
    assert_eq!((block.name.as_str(), block.block_type.as_str()), ("Construct", "Construct"));
    assert_eq!((block.base.team, block.base.rotation, block.base.version), (4, 3, 0));
    assert_eq!(f32::from_bits(block.base.health.bits), 1.0);
    assert!(block.specific.is_none());
    let outside = Packet::BeginPlace { unit: Unit { unit_type: 0, id: 1 }, result: 1, team: 4, x: 3, y: 0, rotation: 0 };
    let r = handle(&mut s, outside);
    assert_eq!(r.notes, vec![Note::PlaceNotInMap(3, 0)]);
}

fn finish(tile: Tile, block: i16) -> Packet {
    Packet::ConstructFinish { tile, block, builder: Unit { unit_type: 0, id: 1 }, rotation: 0, team: 1, config: Object::Null }
}

#[test]
fn construct_finish_names_the_placeholder() {
    let mut s = with_map(3, 2);
    handle(&mut s, Packet::BeginPlace { unit: Unit { unit_type: 0, id: 1 }, result: 1, team: 4, x: 2, y: 1, rotation: 1 });
    let r = handle(&mut s, finish(Tile { x: 2, y: 1 }, 2));
    assert_eq!(changed(&r), vec![Tile { x: 2, y: 1 }]);
    assert!(r.notes.is_empty());
    let tile = &s.state.map.tiles[5];
    assert_eq!(tile.block_id, Some(2));
    let block = tile.block.as_ref().unwrap();
    assert_eq!((block.name.as_str(), block.block_type.as_str()), ("wall", "Wall"));
    assert_eq!(block.base.team, 4);
}

#[test]
fn construct_finish_without_placeholder_outside_or_unknown() {
    let mut s = with_map(3, 2);
    let r = handle(&mut s, finish(Tile { x: 0, y: 0 }, 1));
    assert_eq!(changed(&r), vec![Tile { x: 0, y: 0 }]);
    assert_eq!(r.notes, vec![Note::PlaceholderMissing(Tile { x: 0, y: 0 })]);
    assert_eq!(s.state.map.tiles[0].block_id, Some(1));
    assert!(s.state.map.tiles[0].block.is_none());
    let r = handle(&mut s, finish(Tile { x: -1, y: 0 }, 1));
    assert!(r.events.is_empty());
    assert_eq!(r.notes, vec![Note::TileNotInMap(Tile { x: -1, y: 0 })]);
    let r = handle(&mut s, finish(Tile { x: 1, y: 0 }, 3));
    assert!(r.events.is_empty());
    assert_eq!(r.notes, vec![Note::UnknownBlock(3, PacketError::UnknownBlockType)]);
    assert_eq!(s.state.map.tiles[1].block_id, Some(3));
    let r = handle(&mut s, finish(Tile { x: 1, y: 0 }, 9));
    assert_eq!(r.notes, vec![Note::UnknownBlock(9, PacketError::ProtocolError)]);
    let mut bare = session();
    bare.state.map = TileMap::new(1, 1);
    let r = handle(&mut bare, finish(Tile { x: 0, y: 0 }, 1));
    assert!(r.events.is_empty());
    assert_eq!(r.notes, vec![Note::ContentMapMissing]);
}

#[test]
fn deconstruct_and_rotate() {
    let mut s = with_map(2, 2);
    handle(&mut s, Packet::BeginPlace { unit: Unit { unit_type: 0, id: 1 }, result: 1, team: 4, x: 1, y: 1, rotation: 1 });
    let r = handle(&mut s, Packet::RotateBlockCall { entity: 1, tile: Tile { x: 1, y: 1 }, rotation: 3 });
    assert_eq!(changed(&r), vec![Tile { x: 1, y: 1 }]);
    assert_eq!(s.state.map.tiles[3].block.as_ref().unwrap().base.rotation, 3);
    let r = handle(&mut s, Packet::RotateBlockCall { entity: 1, tile: Tile { x: 0, y: 0 }, rotation: 3 });
    assert!(r.events.is_empty());
    assert_eq!(r.notes, vec![Note::PlaceholderMissing(Tile { x: 0, y: 0 })]);
    let r = handle(&mut s, Packet::RotateBlockCall { entity: 1, tile: Tile { x: 5, y: 0 }, rotation: 3 });
    assert_eq!(r.notes, vec![Note::TileNotInMap(Tile { x: 5, y: 0 })]);
    let r = handle(&mut s, Packet::DeconstructFinish { tile: Tile { x: 1, y: 1 } });
    assert_eq!(changed(&r), vec![Tile { x: 1, y: 1 }]);
    assert!(s.state.map.tiles[3].block.is_none() && s.state.map.tiles[3].block_id.is_none());
    let r = handle(&mut s, Packet::DeconstructFinish { tile: Tile { x: 0, y: 2 } });
    assert!(r.events.is_empty());
    assert_eq!(r.notes, vec![Note::TileNotInMap(Tile { x: 0, y: 2 })]);
}

#[test]
fn spawn_of_the_player_sets_the_position() {
    let mut s = with_map(1, 1);
    let r = handle(&mut s, Packet::SpawnCall { tile_x: 3, tile_y: -2, entity: 41 });
    assert!(r.events.is_empty());
    assert_eq!(f32::from_bits(s.state.x.bits), -1.0);
    handle(&mut s, Packet::SpawnCall { tile_x: 3, tile_y: -2, entity: 42 });
    assert_eq!((f32::from_bits(s.state.x.bits), f32::from_bits(s.state.y.bits)), (24.0, -16.0));
    handle(&mut s, Packet::SpawnCall { tile_x: i16::MAX, tile_y: i16::MIN, entity: 42 });
    assert_eq!((f32::from_bits(s.state.x.bits), f32::from_bits(s.state.y.bits)), (262136.0, -262144.0));
}

fn player(unit: Unit, x: f32, y: f32) -> FullUnit {
    FullUnit::Player {
        revision: None,
        admin: false,
        boosting: false,
        color: 0,
        mouse_x: Float { bits: 0 },
        mouse_y: Float { bits: 0 },
        name: "me".to_string(),
        shooting: false,
        team: 1,
        typing: false,
        unit,
        x: Float { bits: x.to_bits() },
        y: Float { bits: y.to_bits() },
    }
}

#[test]
fn entity_snapshot_replaces_units_and_refreshes_the_player() {
    let mut s = with_map(1, 1);
    let first = vec![
        UnitEntry { id: 42, unit: player(Unit { unit_type: 5, id: 1 }, 8.0, 16.0) },
        UnitEntry { id: 7, unit: FullUnit::Unknown },
        UnitEntry { id: 42, unit: player(Unit { unit_type: 6, id: 2 }, 24.0, 32.0) },
    ];
    let r = handle(&mut s, Packet::EntitySnapshot { units: first });
    assert!(matches!(r.events[..], [ClientEvent::UnitSnapshot]));
    assert_eq!(s.state.units.len(), 3);
    // the player is looked up in the units that were held before: none yet
    assert_eq!(s.state.unit, Unit { unit_type: 0, id: 0 });
    assert_eq!(f32::from_bits(s.state.x.bits), -1.0);
    let r = handle(&mut s, Packet::EntitySnapshot { units: vec![UnitEntry { id: 42, unit: FullUnit::Unknown }] });
    assert!(matches!(r.events[..], [ClientEvent::UnitSnapshot]));
    assert_eq!(s.state.unit, Unit { unit_type: 6, id: 2 });
    assert_eq!((f32::from_bits(s.state.x.bits), f32::from_bits(s.state.y.bits)), (24.0, 32.0));
    assert_eq!(s.state.units.len(), 1);
    // a position that is known stays
    s.state.units = vec![UnitEntry { id: 42, unit: player(Unit { unit_type: 9, id: 3 }, 1.0, 2.0) }];
    handle(&mut s, Packet::EntitySnapshot { units: vec![] });
    assert_eq!(s.state.unit, Unit { unit_type: 9, id: 3 });
    assert_eq!((f32::from_bits(s.state.x.bits), f32::from_bits(s.state.y.bits)), (24.0, 32.0));
    assert!(s.state.units.is_empty());
    // an entity of the player's id that is no player changes nothing
    s.state.units = vec![UnitEntry { id: 42, unit: FullUnit::Unknown }];
    handle(&mut s, Packet::EntitySnapshot { units: vec![] });
    assert_eq!(s.state.unit, Unit { unit_type: 9, id: 3 });
}

fn door_entry(x: i16, y: i16, id: i16, open: u8) -> Vec<u8> {
    let mut b = Vec::new();
    b.extend_from_slice(&x.to_be_bytes());
    b.extend_from_slice(&y.to_be_bytes());
    b.extend_from_slice(&id.to_be_bytes());
    b.extend_from_slice(&[0x3F, 0x80, 0, 0, 0x02, 0x01, 0]);
    b.push(open);
    b
}

#[test]
fn block_snapshot_updates_entities() {
    let mut s = with_map(2, 1);
    s.state.map.put_block_id(0, Some(1));
    let mut data = door_entry(0, 0, 1, 1);
    data.extend_from_slice(&door_entry(1, 0, 1, 0));
    let r = handle(&mut s, Packet::BlockSnapshot { amount: 2, data });
    assert_eq!(changed(&r), vec![Tile { x: 0, y: 0 }, Tile { x: 1, y: 0 }]);
    assert_eq!(r.notes, vec![Note::BlockIdMismatch(Tile { x: 1, y: 0 })]);
    let first = s.state.map.tiles[0].block.as_ref().unwrap();
    assert_eq!((first.name.as_str(), first.base.rotation, first.base.team), ("door", 2, 1));
    assert!(matches!(first.specific, Some(SpecificBlockData::Door { open: true })));
    assert!(matches!(s.state.map.tiles[1].block.as_ref().unwrap().specific, Some(SpecificBlockData::Door { open: false })));
}

#[test]
fn block_snapshot_stops_where_it_cannot_go_on() {
    let mut s = with_map(2, 1);
    s.state.map.put_block_id(0, Some(1));
    let mut data = door_entry(0, 0, 1, 1);
    data.extend_from_slice(&[0, 1, 0]);
    let r = handle(&mut s, Packet::BlockSnapshot { amount: 2, data });
    assert_eq!(changed(&r), vec![Tile { x: 0, y: 0 }]);
    assert_eq!(r.notes, vec![Note::SnapshotCut(PacketError::UnexpectedEnd)]);
    let r = handle(&mut s, Packet::BlockSnapshot { amount: 1, data: door_entry(5, 0, 1, 1) });
    assert!(r.events.is_empty());
    assert_eq!(r.notes, vec![Note::TileNotInMap(Tile { x: 5, y: 0 })]);
    let r = handle(&mut s, Packet::BlockSnapshot { amount: 1, data: door_entry(0, 0, 3, 1) });
    assert!(r.events.is_empty());
    assert_eq!(r.notes, vec![Note::BlockIdMismatch(Tile { x: 0, y: 0 }), Note::SnapshotCut(PacketError::UnknownBlockType)]);
    let r = handle(&mut s, Packet::BlockSnapshot { amount: -1, data: door_entry(0, 0, 1, 1) });
    assert!(r.events.is_empty() && r.notes.is_empty());
    let mut bare = session();
    bare.state.map = TileMap::new(1, 1);
    let r = handle(&mut bare, Packet::BlockSnapshot { amount: 1, data: door_entry(0, 0, 1, 1) });
    assert_eq!(r.notes, vec![Note::BlockIdMismatch(Tile { x: 0, y: 0 }), Note::ContentMapMissing]);
}

#[test]
fn kicks_chat_and_the_rest() {
    let mut s = with_map(1, 1);
    let r = handle(&mut s, Packet::KickCall { reason: "bye".to_string() });
    assert!(r.events.is_empty());
    assert_eq!(r.notes, vec![Note::KickedText]);
    let r = handle(&mut s, Packet::KickCall2 { reason: KickReason::Vote });
    assert_eq!(r.notes, vec![Note::Kicked(KickReason::Vote)]);
    let r = handle(&mut s, Packet::Other(77));
    assert_eq!(r.notes, vec![Note::Unhandled(77)]);
    let r = handle(&mut s, Packet::SendMessageCall2 { message: "a".to_string(), unformatted: Some("b".to_string()), sender: 3 });
    match &r.events[..] {
        [ClientEvent::ChatMessage { message, unformatted: Some(u), sender: 3 }] => assert_eq!((message.as_str(), u.as_str()), ("a", "b")),
        other => panic!("{:?}", other),
    }
    for quiet in [
        Packet::ConnectCallConfirm,
        Packet::BeginBreak { unit: Unit { unit_type: 0, id: 0 }, team: 0, x: 0, y: 0 },
        Packet::TileConfigCall { player: 1, tile: Tile { x: 0, y: 0 }, value: Object::Null },
        Packet::SendChatMessageCall { message: "x".to_string() },
    ] {
        let r = handle(&mut s, quiet);
        assert!(r.events.is_empty() && r.notes.is_empty() && r.requeue.is_none());
    }
    assert_eq!(s.state.player_id, 42);
}

#[test]
fn text_helpers() {
    assert!(str_eq("abc", "abc"));
    assert!(!str_eq("abc", "abd"));
    assert!(!str_eq("abc", "ab"));
    assert!(str_eq("", ""));
    assert!(str_begins_with("Builder", "Build"));
    assert!(str_begins_with("Build", "Build"));
    assert!(!str_begins_with("Buil", "Build"));
    assert!(!str_begins_with("aBuild", "Build"));
    assert!(str_begins_with("x", ""));
}
