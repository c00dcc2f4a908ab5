use mindustry_net::block_io::SpecificBlockData;
use mindustry_net::packet::PacketError;
use mindustry_net::save_io::{
    read_blocks, read_content_header, read_entity, read_floors, read_map, TileMap,
};
use mindustry_net::tables::{BlockParam, ContentMap, Table, Tables};
use mindustry_net::type_io::Reader;

fn reader(bytes: &[u8]) -> Reader {
    Reader::new(bytes.to_vec())
}

fn tables() -> Tables {
    let mut block_types: Table<String> = Table::new();
    block_types.insert("door".to_string(), "Door".to_string());
    block_types.insert("wall".to_string(), "Wall".to_string());
    let block_params: Table<BlockParam> = Table::new();
    Tables {
        content_types: vec!["item".to_string(), "block".to_string(), "unit".to_string()],
        block_types,
        block_params,
    }
}

fn content() -> ContentMap {
    let mut c = Table::new();
    c.insert("block".to_string(), vec!["air".to_string(), "door".to_string(), "wall".to_string()]);
    c
}

#[test]
fn content_header_by_category() {
    let bytes = [2, 1, 0, 2, 0, 3, b'a', b'i', b'r', 0, 4, b'd', b'o', b'o', b'r', 0, 0, 1, 0, 1, b'x', 9];
    let mut r = reader(&bytes);
    let map = read_content_header(&mut r, &tables().content_types).unwrap();
    assert_eq!(r.offset(), bytes.len() - 1);
    assert_eq!(map.entries.len(), 2);
    assert_eq!(map.entries[0].name, "block");
    assert_eq!(map.entries[0].value, vec!["air".to_string(), "door".to_string()]);
    assert_eq!(map.entries[1].name, "item");
    assert_eq!(map.entries[1].value, vec!["x".to_string()]);
    assert_eq!(map.find("block"), Some(0));
    assert_eq!(map.find("item"), Some(1));
    assert_eq!(map.find("unit"), None);
}

#[test]
fn content_header_holds_as_many_names_as_it_declares() {
    let bytes = [3, 0, 0, 0, 1, 0, 3, 0, 1, b'a', 0, 1, b'b', 0, 1, b'c', 2, 0xFF, 0xFF];
    let map = read_content_header(&mut reader(&bytes), &tables().content_types).unwrap();
    let total: usize = map.entries.iter().map(|e| e.value.len()).sum();
    assert_eq!(total, 0 + 3 + 0);
    assert_eq!(map.entries.iter().map(|e| e.value.len()).collect::<Vec<_>>(), vec![0, 3, 0]);
}

#[test]
fn content_header_later_category_counts() {
    let bytes = [2, 1, 0, 1, 0, 1, b'a', 1, 0, 1, 0, 1, b'b'];
    let map = read_content_header(&mut reader(&bytes), &tables().content_types).unwrap();
    assert_eq!(map.find("block"), Some(1));
}

#[test]
fn content_header_errors() {
    let types = tables().content_types;
    assert_eq!(read_content_header(&mut reader(&[]), &types).err(), Some(PacketError::UnexpectedEnd));
    assert_eq!(read_content_header(&mut reader(&[1, 1, 0]), &types).err(), Some(PacketError::UnexpectedEnd));
    assert_eq!(read_content_header(&mut reader(&[1, 3, 0, 0]), &types).err(), Some(PacketError::ProtocolError));
    assert_eq!(read_content_header(&mut reader(&[1, 1, 0, 1, 0, 0]), &types).err(), Some(PacketError::ProtocolError));
    assert_eq!(read_content_header(&mut reader(&[1, 1, 0, 1, 0, 1, 0xFF]), &types).err(), Some(PacketError::ProtocolError));
    assert_eq!(read_content_header(&mut reader(&[1, 1, 0, 2, 0, 1, b'a']), &types).err(), Some(PacketError::UnexpectedEnd));
}

#[test]
fn map_grid_is_row_major() {
    let mut m = TileMap::new(3, 2);
    assert_eq!(m.tiles.len(), 6);
    m.set_floor(2, 1, 7);
    m.set_ore(0, 1, 4);
    m.set_block(1, 0, 9);
    assert_eq!(m.tiles[5].floor, 7);
    assert_eq!(m.tiles[3].ore, Some(4));
    assert_eq!(m.tiles[1].block_id, Some(9));
    assert_eq!(m.get(2, 1).unwrap().floor, 7);
    assert_eq!(m.get(0, 0).unwrap().floor, 0);
    assert!(m.get(0, 0).unwrap().ore.is_none());
    assert!(m.get(3, 0).is_none());
    assert!(m.get(0, 2).is_none());
    m.set_floor(3, 0, 1);
    m.set_ore(0, 2, 1);
    m.set_block(9, 9, 1);
    assert_eq!(m.tiles.iter().filter(|t| t.floor != 0).count(), 1);
    assert_eq!(m.find(1, 1), Some(4));
    assert_eq!(m.find(3, 1), None);
    assert_eq!(TileMap::new(0, 0).tiles.len(), 0);
    assert!(TileMap::new(0, 5).get(0, 0).is_none());
}

#[test]
fn map_rle_floors() {
    let mut map = TileMap::new(3, 1);
    let mut r = reader(&[0x00, 0x05, 0x00, 0x00, 0x02]);
    assert_eq!(read_floors(&mut r, &mut map), Ok(()));
    assert_eq!(r.remaining(), 0);
    assert_eq!(map.tiles.len(), 3);
    for tile in &map.tiles {
        assert_eq!(tile.floor, 5);
        assert_eq!(tile.ore, None);
    }
}

#[test]
fn floors_with_ore_and_several_runs() {
    let mut map = TileMap::new(2, 2);
    let mut r = reader(&[0, 1, 0, 9, 0, 0, 2, 0, 0, 2, 0xEE]);
    assert_eq!(read_floors(&mut r, &mut map), Ok(()));
    assert_eq!(r.offset(), 10);
    assert_eq!(map.tiles.iter().map(|t| (t.floor, t.ore)).collect::<Vec<_>>(), vec![(1, Some(9)), (2, None), (2, None), (2, None)]);
}

#[test]
fn floors_run_must_not_leave_the_map() {
    let mut map = TileMap::new(3, 1);
    assert_eq!(read_floors(&mut reader(&[0, 5, 0, 0, 3]), &mut map), Err(PacketError::ProtocolError));
    let mut map = TileMap::new(3, 1);
    assert_eq!(read_floors(&mut reader(&[0, 5, 0, 0, 1]), &mut map), Err(PacketError::UnexpectedEnd));
    let mut map = TileMap::new(0, 0);
    let mut r = reader(&[1, 2, 3]);
    assert_eq!(read_floors(&mut r, &mut map), Ok(()));
    assert_eq!(r.offset(), 0);
}

fn door_entity(length: i16) -> Vec<u8> {
    let mut b = length.to_be_bytes().to_vec();
    b.push(0); // version of the record
    b.extend_from_slice(&[0x3F, 0x80, 0, 0, 0x01, 0x02, 0]); // base
    b.push(1); // open
    b
}

#[test]
fn entity_record_takes_its_declared_length() {
    let mut bytes = door_entity(9);
    bytes.push(0xEE);
    let mut r = Reader::new(bytes);
    let block = read_entity(&mut r, 1, &content(), &tables()).unwrap();
    assert_eq!(r.offset(), 11);
    assert_eq!(block.name, "door");
    assert!(matches!(block.specific, Some(SpecificBlockData::Door { open: true })));
}

#[test]
fn entity_record_of_another_length_is_a_mismatch() {
    for length in [8i16, 10, 0, -1] {
        let mut bytes = door_entity(length);
        bytes.push(0xEE);
        assert_eq!(
            read_entity(&mut Reader::new(bytes), 1, &content(), &tables()).err(),
            Some(PacketError::BlockLengthMismatch),
            "{}",
            length
        );
    }
    assert_eq!(read_entity(&mut reader(&[0, 9]), 1, &content(), &tables()).err(), Some(PacketError::UnexpectedEnd));
    assert_eq!(read_entity(&mut Reader::new(door_entity(9)), 7, &content(), &tables()).err(), Some(PacketError::ProtocolError));
}

#[test]
fn blocks_pass_runs_entities_and_data() {
    let mut map = TileMap::new(3, 2);
    let mut bytes = vec![0, 2, 0, 1]; // wall, no flags, one more cell
    bytes.extend_from_slice(&[0, 1, 1, 1]); // door with entity, centre
    bytes.extend_from_slice(&door_entity(9));
    bytes.extend_from_slice(&[0, 1, 1, 0]); // part of a door, not the centre
    bytes.extend_from_slice(&[0, 2, 4, 1, 2, 3, 0, 0, 0, 4]); // wall with data
    bytes.extend_from_slice(&[0, 0, 0, 0]); // air
    bytes.push(0xEE);
    let mut r = Reader::new(bytes.clone());
    assert_eq!(read_blocks(&mut r, &mut map, &content(), &tables()), Ok(()));
    assert_eq!(r.offset(), bytes.len() - 1);
    assert_eq!(
        map.tiles.iter().map(|t| t.block_id).collect::<Vec<_>>(),
        vec![Some(2), Some(2), Some(1), None, Some(2), Some(0)]
    );
    assert_eq!(map.tiles.iter().filter(|t| t.block.is_some()).count(), 1);
    assert_eq!(map.tiles[2].block.as_ref().unwrap().name, "door");
}

#[test]
fn blocks_pass_errors() {
    let mut map = TileMap::new(2, 1);
    assert_eq!(read_blocks(&mut reader(&[0, 2, 0, 2]), &mut map, &content(), &tables()), Err(PacketError::ProtocolError));
    let mut map = TileMap::new(2, 1);
    assert_eq!(read_blocks(&mut reader(&[0, 2, 0, 0]), &mut map, &content(), &tables()), Err(PacketError::UnexpectedEnd));
    let mut map = TileMap::new(1, 1);
    let mut bytes = vec![0, 1, 1, 1];
    bytes.extend_from_slice(&door_entity(8));
    assert_eq!(read_blocks(&mut Reader::new(bytes), &mut map, &content(), &tables()), Err(PacketError::BlockLengthMismatch));
}

#[test]
fn whole_map() {
    let mut bytes = vec![0, 2, 0, 1]; // 2 x 1
    bytes.extend_from_slice(&[0, 7, 0, 3, 1]); // floors
    bytes.extend_from_slice(&[0, 1, 1, 1]);
    bytes.extend_from_slice(&door_entity(9));
    bytes.extend_from_slice(&[0, 0, 0, 0]);
    bytes.extend_from_slice(&[0xEE, 0xEF]);
    let mut r = Reader::new(bytes.clone());
    let map = read_map(&mut r, &content(), &tables()).unwrap();
    assert_eq!(r.remaining(), 2);
    assert_eq!((map.width, map.height), (2, 1));
    assert_eq!(map.tiles.len(), 2);
    assert_eq!(map.tiles[0].floor, 7);
    assert_eq!(map.tiles[1].ore, Some(3));
    assert_eq!(map.tiles[0].block_id, Some(1));
    assert!(map.tiles[0].block.is_some());
    assert_eq!(map.tiles[1].block_id, Some(0));
}

#[test]
fn map_with_a_negative_size_is_refused() {
    assert_eq!(read_map(&mut reader(&[0xFF, 0xFF, 0, 1]), &content(), &tables()).err(), Some(PacketError::ProtocolError));
    assert_eq!(read_map(&mut reader(&[0, 1]), &content(), &tables()).err(), Some(PacketError::UnexpectedEnd));
    let empty = read_map(&mut reader(&[0, 0, 0, 0]), &content(), &tables()).unwrap();
    assert_eq!(empty.tiles.len(), 0);
}

#[test]
fn map_entity_helpers() {
    let mut map = TileMap::new(2, 1);
    let block = read_entity(&mut Reader::new(door_entity(9)), 1, &content(), &tables()).unwrap();
    map.put_entity(1, Some(block));
    map.put_block_id(1, Some(1));
    map.rotate_entity(1, 3);
    map.rotate_entity(0, 3);
    map.rename_entity(1, "wall".to_string(), "Wall".to_string());
    map.rename_entity(0, "wall".to_string(), "Wall".to_string());
    assert!(map.tiles[0].block.is_none());
    let b = map.tiles[1].block.as_ref().unwrap();
    assert_eq!((b.name.as_str(), b.block_type.as_str(), b.base.rotation), ("wall", "Wall", 3));
    map.put_entity(1, None);
    map.put_block_id(1, None);
    assert!(map.tiles[1].block.is_none() && map.tiles[1].block_id.is_none());
}
