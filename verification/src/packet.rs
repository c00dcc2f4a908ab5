//! Frames and packets: the framework sub-protocol, the packets of the game,
//! LZ4 on the way in and out, and the zlib stream that holds a world.

use crate::block_io::float_at;
use crate::save_io::{
    parse_content_header, parse_map, read_content_header, read_map, TileMap, TileMapView,
};
use crate::tables::{ContentMap, ContentView, Tables, TablesView};
use crate::type_io::{
    be16, be32, bool_at, bool_byte, clamped_end, count_of, deep, i16_at, lemma_deep_empty,
    lemma_deep_push, lemma_deep_vec, lemma_repeat_fails, lemma_u16_round_trip, parse_object,
    parse_string_map, prefixed_string_at, prefixed_string_bytes, read_kick, read_object,
    read_prefixed_string, read_string, read_string_map, read_tile, read_unit, repeat, string_at,
    string_fits, tile_at, u16_at, u32_at, u64_at, unit_at, write_bool, write_byte, write_bytes,
    write_float, write_int, write_string, write_unsigned_short, Double, Float, KickReason, Object,
    ObjectView, Parsed, Reader, Tile, Unit,
};
use crate::unit_io::{
    parse_full_unit, plans_bytes, read_full_unit, write_plans, FullUnit, FullUnitView, Plan,
    PlanView,
};
use vstd::prelude::*;

verus! {

/// Everything that can go wrong between the raw bytes of a transport and a
/// decoded packet, and on the way back.
#[derive(Debug, Clone, Copy, PartialEq, Eq, Structural)]
pub enum PacketError {
    /// The two length bytes of a frame could not be read from the transport.
    FailedToReadLength,
    /// The body of a frame could not be read from the transport.
    FailedToReadData,
    /// A framework envelope carried a sub-id that is not assigned.
    UnknownFrameworkPacket,
    /// A compressed payload did not expand to its declared length.
    DecompressionFailed,
    /// The body of a world stream is not a valid zlib stream.
    WorldDataDecompressionFailed,
    /// A tagged object started with a tag that is not assigned.
    UnknownObjectTag,
    /// A kick reason byte was outside the assigned range.
    UnknownKickReason,
    /// A block name has no entry in the table of block types.
    UnknownBlockType,
    /// A block entity did not occupy the number of bytes declared for it.
    BlockLengthMismatch,
    /// Entity data arrived before any content map was known.
    ContentMapMissing,
    /// A value does not fit the length prefix of its encoding.
    EncodingTooLong,
    /// The bytes ended inside a value.
    UnexpectedEnd,
    /// The bytes are complete but break a rule of the protocol: a content id
    /// that names nothing, a state byte without meaning, a run that leaves
    /// the map, or a name that is absent where one is owed.
    ProtocolError,
}

/// A packet of the framework sub-protocol, which sets a session up and
/// keeps it alive.
#[derive(Debug, Clone, Copy, PartialEq, Eq, Structural)]
pub enum FrameworkPacket {
    DiscoverHost,
    KeepAlive,
    RegisterUDP(u32),
    RegisterTCP(u32),
}

/// The framework packet in the bytes of `s` from `pos`, which stand behind
/// the envelope's id: a sub-id, and for the two registrations a 32-bit
/// session id.
pub open spec fn framework_at(s: Seq<u8>, pos: int) -> Result<FrameworkPacket, PacketError> {
    if pos + 1 > s.len() {
        Err(PacketError::UnexpectedEnd)
    } else if s[pos] == 1 {
        Ok(FrameworkPacket::DiscoverHost)
    } else if s[pos] == 2 {
        Ok(FrameworkPacket::KeepAlive)
    } else if s[pos] == 3 {
        if pos + 5 > s.len() {
            Err(PacketError::UnexpectedEnd)
        } else {
            Ok(FrameworkPacket::RegisterUDP(u32_at(s, pos + 1)))
        }
    } else if s[pos] == 4 {
        if pos + 5 > s.len() {
            Err(PacketError::UnexpectedEnd)
        } else {
            Ok(FrameworkPacket::RegisterTCP(u32_at(s, pos + 1)))
        }
    } else {
        Err(PacketError::UnknownFrameworkPacket)
    }
}

/// Reads a framework packet from behind the envelope's id.
pub fn parse_framework_packet(reader: Reader) -> (r: Result<FrameworkPacket, PacketError>)
    requires
        reader.wf(),
    ensures
        r == framework_at(reader.data(), reader.position()),
{
    let mut reader = reader;
    reader.need(1)?;
    let id = reader.byte();
    if id == 1 {
        Ok(FrameworkPacket::DiscoverHost)
    } else if id == 2 {
        Ok(FrameworkPacket::KeepAlive)
    } else if id == 3 {
        reader.need(4)?;
        Ok(FrameworkPacket::RegisterUDP(reader.int32()))
    } else if id == 4 {
        reader.need(4)?;
        Ok(FrameworkPacket::RegisterTCP(reader.int32()))
    } else {
        Err(PacketError::UnknownFrameworkPacket)
    }
}

/// The bytes of a framework packet: the envelope's id 254, the sub-id, and
/// for the two registrations the session id.
pub open spec fn framework_bytes(packet: FrameworkPacket) -> Seq<u8> {
    match packet {
        FrameworkPacket::DiscoverHost => seq![254u8, 1u8],
        FrameworkPacket::KeepAlive => seq![254u8, 2u8],
        FrameworkPacket::RegisterUDP(id) => seq![254u8, 3u8] + be32(id),
        FrameworkPacket::RegisterTCP(id) => seq![254u8, 4u8] + be32(id),
    }
}

/// Writes a framework packet as it travels in a datagram; on the reliable
/// channel `frame_reliable` puts its length in front.
pub fn write_framework_packet(packet: FrameworkPacket) -> (data: Vec<u8>)
    ensures
        data@ == framework_bytes(packet),
{
    let mut data: Vec<u8> = Vec::new();
    data.push(0xFE);
    match packet {
        FrameworkPacket::DiscoverHost => {
            data.push(0x01);
        },
        FrameworkPacket::KeepAlive => {
            data.push(0x02);
        },
        FrameworkPacket::RegisterUDP(id) => {
            data.push(0x03);
            crate::type_io::write_int(&mut data, id);
        },
        FrameworkPacket::RegisterTCP(id) => {
            data.push(0x04);
            crate::type_io::write_int(&mut data, id);
        },
    }
    assert(data@ =~= framework_bytes(packet));
    data
}

/// A framework packet that was written is read back as it was.
pub proof fn lemma_framework_round_trip(packet: FrameworkPacket)
    ensures
        framework_at(framework_bytes(packet), 1) == Ok::<FrameworkPacket, PacketError>(packet),
{
    let s = framework_bytes(packet);
    match packet {
        FrameworkPacket::RegisterUDP(id) => {
            assert(s.subrange(2, 6) =~= be32(id));
            crate::type_io::lemma_u32_read_back(s, 2, id);
        },
        FrameworkPacket::RegisterTCP(id) => {
            assert(s.subrange(2, 6) =~= be32(id));
            crate::type_io::lemma_u32_read_back(s, 2, id);
        },
        _ => {},
    }
}

/// The bytes of a message on the reliable channel: its length as an
/// unsigned 16-bit number, then the message.
pub open spec fn reliable_frame(body: Seq<u8>) -> Seq<u8> {
    be16(body.len() as u16) + body
}

/// Puts the length of a message in front of it, as the reliable channel
/// wants it. A message of more than 65535 bytes has no frame.
pub fn frame_reliable(body: &Vec<u8>) -> (r: Result<Vec<u8>, PacketError>)
    ensures
        body@.len() <= 65535 ==> r is Ok && r->Ok_0@ == reliable_frame(body@),
        body@.len() > 65535 ==> r is Err && r->Err_0 == PacketError::EncodingTooLong,
{
    if body.len() > 65535 {
        return Err(PacketError::EncodingTooLong);
    }
    let mut out: Vec<u8> = Vec::new();
    crate::type_io::write_unsigned_short(&mut out, body.len() as u16);
    crate::type_io::write_bytes(&mut out, body.as_slice());
    assert(out@ =~= reliable_frame(body@));
    Ok(out)
}

/// An entity of a snapshot under its id.
#[derive(Debug, Clone)]
pub struct UnitEntry {
    pub id: u32,
    pub unit: FullUnit,
}

impl DeepView for UnitEntry {
    type V = (u32, FullUnitView);

    open spec fn deep_view(&self) -> (u32, FullUnitView) {
        (self.id, self.unit.deep_view())
    }
}

/// A packet of the game itself, by its id.
#[derive(Debug, Clone)]
#[allow(inconsistent_fields)]
pub enum Packet {
    /// [0] A stream of chunks begins.
    StreamBegin {
        id: u32,
        total: u32,
        stream_type: u8,
    },
    /// [1] One chunk of a stream.
    StreamChunk {
        id: u32,
        data: Vec<u8>,
    },
    /// [2] The world, as a completed stream carries it.
    WorldStream {
        wave: u32,
        wave_time: Float,
        tick: Double,
        seed0: u64,
        seed1: u64,
        id: u32,
        content_map: ContentMap,
        map: TileMap,
    },
    /// [3] The client introduces itself.
    Connect {
        version: u32,
        client: String,
        name: String,
        lang: String,
        usid: String,
        uuid: String,
        mobile: bool,
        color: Vec<u8>,
        mods: Vec<String>,
    },
    /// [9] A unit starts to take a block down.
    BeginBreak {
        unit: Unit,
        team: u8,
        x: u32,
        y: u32,
    },
    /// [10] A unit starts to put a block up.
    BeginPlace {
        unit: Unit,
        result: u16,
        team: u8,
        x: u32,
        y: u32,
        rotation: u32,
    },
    /// [11] The state of some block entities.
    BlockSnapshot {
        amount: i16,
        data: Vec<u8>,
    },
    /// [18] What the client reports of itself.
    ClientSnapshot {
        snapshot_id: u32,
        unit_id: u32,
        dead: bool,
        x: Float,
        y: Float,
        pointer_x: Float,
        pointer_y: Float,
        rotation: Float,
        base_rotation: Float,
        x_velocity: Float,
        y_velocity: Float,
        mining_x: u16,
        mining_y: u16,
        boosting: bool,
        shooting: bool,
        chatting: bool,
        building: bool,
        plans: Vec<Plan>,
        view_x: Float,
        view_y: Float,
        view_width: Float,
        view_height: Float,
    },
    /// [22] The client confirms that it is connected.
    ConnectCallConfirm,
    /// [23] A block is finished.
    ConstructFinish {
        tile: Tile,
        block: i16,
        builder: Unit,
        rotation: u8,
        team: u8,
        config: Object,
    },
    /// A block is gone. No decoder yields it: its id is not known.
    DeconstructFinish {
        tile: Tile,
    },
    /// [34] The entities of the world, each under its id.
    EntitySnapshot {
        units: Vec<UnitEntry>,
    },
    /// [44] The player is removed, with a reason in words.
    KickCall {
        reason: String,
    },
    /// [45] The player is removed, with one of the fixed reasons.
    KickCall2 {
        reason: KickReason,
    },
    /// [59] An entity appears at a tile.
    SpawnCall {
        tile_x: i16,
        tile_y: i16,
        entity: u32,
    },
    /// [69] A block is turned.
    RotateBlockCall {
        entity: u32,
        tile: Tile,
        rotation: u8,
    },
    /// [71] A chat message for the server.
    SendChatMessageCall {
        message: String,
    },
    /// [73] A chat message from the server.
    SendMessageCall2 {
        message: String,
        unformatted: Option<String>,
        sender: u32,
    },
    /// [94] The state of the game.
    StateSnapshot {
        wave_time: Float,
        wave: u32,
        enemies: u32,
        paused: bool,
        game_over: bool,
        time_data: u32,
        tps: u8,
        rand0: u64,
        rand1: u64,
        core_data: Vec<u8>,
    },
    /// [99] A block is configured.
    TileConfigCall {
        player: u32,
        tile: Tile,
        value: Object,
    },
    /// A packet of an id that has no decoder.
    Other(u8),
}

/// What a `Packet` holds, as plain mathematical values.
#[allow(inconsistent_fields)]
pub enum PacketView {
    StreamBegin {
        id: u32,
        total: u32,
        stream_type: u8,
    },
    StreamChunk {
        id: u32,
        data: Seq<u8>,
    },
    WorldStream {
        wave: u32,
        wave_time: Float,
        tick: Double,
        seed0: u64,
        seed1: u64,
        id: u32,
        content_map: ContentView,
        map: TileMapView,
    },
    Connect {
        version: u32,
        client: Seq<char>,
        name: Seq<char>,
        lang: Seq<char>,
        usid: Seq<char>,
        uuid: Seq<char>,
        mobile: bool,
        color: Seq<u8>,
        mods: Seq<Seq<char>>,
    },
    BeginBreak {
        unit: Unit,
        team: u8,
        x: u32,
        y: u32,
    },
    BeginPlace {
        unit: Unit,
        result: u16,
        team: u8,
        x: u32,
        y: u32,
        rotation: u32,
    },
    BlockSnapshot {
        amount: i16,
        data: Seq<u8>,
    },
    ClientSnapshot {
        snapshot_id: u32,
        unit_id: u32,
        dead: bool,
        x: Float,
        y: Float,
        pointer_x: Float,
        pointer_y: Float,
        rotation: Float,
        base_rotation: Float,
        x_velocity: Float,
        y_velocity: Float,
        mining_x: u16,
        mining_y: u16,
        boosting: bool,
        shooting: bool,
        chatting: bool,
        building: bool,
        plans: Seq<PlanView>,
        view_x: Float,
        view_y: Float,
        view_width: Float,
        view_height: Float,
    },
    ConnectCallConfirm,
    ConstructFinish {
        tile: Tile,
        block: i16,
        builder: Unit,
        rotation: u8,
        team: u8,
        config: ObjectView,
    },
    DeconstructFinish {
        tile: Tile,
    },
    EntitySnapshot {
        units: Seq<(u32, FullUnitView)>,
    },
    KickCall {
        reason: Seq<char>,
    },
    KickCall2 {
        reason: KickReason,
    },
    SpawnCall {
        tile_x: i16,
        tile_y: i16,
        entity: u32,
    },
    RotateBlockCall {
        entity: u32,
        tile: Tile,
        rotation: u8,
    },
    SendChatMessageCall {
        message: Seq<char>,
    },
    SendMessageCall2 {
        message: Seq<char>,
        unformatted: Option<Seq<char>>,
        sender: u32,
    },
    StateSnapshot {
        wave_time: Float,
        wave: u32,
        enemies: u32,
        paused: bool,
        game_over: bool,
        time_data: u32,
        tps: u8,
        rand0: u64,
        rand1: u64,
        core_data: Seq<u8>,
    },
    TileConfigCall {
        player: u32,
        tile: Tile,
        value: ObjectView,
    },
    Other(u8),
}

impl DeepView for Packet {
    type V = PacketView;

    open spec fn deep_view(&self) -> PacketView {
        match self {
            Packet::StreamBegin { id, total, stream_type } => PacketView::StreamBegin {
                id: *id,
                total: *total,
                stream_type: *stream_type,
            },
            Packet::StreamChunk { id, data } => PacketView::StreamChunk {
                id: *id,
                data: data@,
            },
            Packet::WorldStream {
                wave,
                wave_time,
                tick,
                seed0,
                seed1,
                id,
                content_map,
                map,
            } => PacketView::WorldStream {
                wave: *wave,
                wave_time: *wave_time,
                tick: *tick,
                seed0: *seed0,
                seed1: *seed1,
                id: *id,
                content_map: content_map.deep_view(),
                map: map.deep_view(),
            },
            Packet::Connect {
                version,
                client,
                name,
                lang,
                usid,
                uuid,
                mobile,
                color,
                mods,
            } => PacketView::Connect {
                version: *version,
                client: client@,
                name: name@,
                lang: lang@,
                usid: usid@,
                uuid: uuid@,
                mobile: *mobile,
                color: color@,
                mods: mods.deep_view(),
            },
            Packet::BeginBreak { unit, team, x, y } => PacketView::BeginBreak {
                unit: *unit,
                team: *team,
                x: *x,
                y: *y,
            },
            Packet::BeginPlace { unit, result, team, x, y, rotation } => PacketView::BeginPlace {
                unit: *unit,
                result: *result,
                team: *team,
                x: *x,
                y: *y,
                rotation: *rotation,
            },
            Packet::BlockSnapshot { amount, data } => PacketView::BlockSnapshot {
                amount: *amount,
                data: data@,
            },
            Packet::ClientSnapshot {
                snapshot_id,
                unit_id,
                dead,
                x,
                y,
                pointer_x,
                pointer_y,
                rotation,
                base_rotation,
                x_velocity,
                y_velocity,
                mining_x,
                mining_y,
                boosting,
                shooting,
                chatting,
                building,
                plans,
                view_x,
                view_y,
                view_width,
                view_height,
            } => PacketView::ClientSnapshot {
                snapshot_id: *snapshot_id,
                unit_id: *unit_id,
                dead: *dead,
                x: *x,
                y: *y,
                pointer_x: *pointer_x,
                pointer_y: *pointer_y,
                rotation: *rotation,
                base_rotation: *base_rotation,
                x_velocity: *x_velocity,
                y_velocity: *y_velocity,
                mining_x: *mining_x,
                mining_y: *mining_y,
                boosting: *boosting,
                shooting: *shooting,
                chatting: *chatting,
                building: *building,
                plans: plans.deep_view(),
                view_x: *view_x,
                view_y: *view_y,
                view_width: *view_width,
                view_height: *view_height,
            },
            Packet::ConnectCallConfirm => PacketView::ConnectCallConfirm,
            Packet::ConstructFinish {
                tile,
                block,
                builder,
                rotation,
                team,
                config,
            } => PacketView::ConstructFinish {
                tile: *tile,
                block: *block,
                builder: *builder,
                rotation: *rotation,
                team: *team,
                config: config.deep_view(),
            },
            Packet::DeconstructFinish { tile } => PacketView::DeconstructFinish {
                tile: *tile,
            },
            Packet::EntitySnapshot { units } => PacketView::EntitySnapshot {
                units: units.deep_view(),
            },
            Packet::KickCall { reason } => PacketView::KickCall {
                reason: reason@,
            },
            Packet::KickCall2 { reason } => PacketView::KickCall2 {
                reason: *reason,
            },
            Packet::SpawnCall { tile_x, tile_y, entity } => PacketView::SpawnCall {
                tile_x: *tile_x,
                tile_y: *tile_y,
                entity: *entity,
            },
            Packet::RotateBlockCall { entity, tile, rotation } => PacketView::RotateBlockCall {
                entity: *entity,
                tile: *tile,
                rotation: *rotation,
            },
            Packet::SendChatMessageCall { message } => PacketView::SendChatMessageCall {
                message: message@,
            },
            Packet::SendMessageCall2 {
                message,
                unformatted,
                sender,
            } => PacketView::SendMessageCall2 {
                message: message@,
                unformatted: unformatted.deep_view(),
                sender: *sender,
            },
            Packet::StateSnapshot {
                wave_time,
                wave,
                enemies,
                paused,
                game_over,
                time_data,
                tps,
                rand0,
                rand1,
                core_data,
            } => PacketView::StateSnapshot {
                wave_time: *wave_time,
                wave: *wave,
                enemies: *enemies,
                paused: *paused,
                game_over: *game_over,
                time_data: *time_data,
                tps: *tps,
                rand0: *rand0,
                rand1: *rand1,
                core_data: core_data@,
            },
            Packet::TileConfigCall { player, tile, value } => PacketView::TileConfigCall {
                player: *player,
                tile: *tile,
                value: value.deep_view(),
            },
            Packet::Other(id) => PacketView::Other(*id),
        }
    }
}

/// A packet of either protocol.
#[derive(Debug, Clone)]
pub enum AnyPacket {
    Framework(FrameworkPacket),
    Regular(Packet),
}

/// What an `AnyPacket` holds, as plain mathematical values.
pub enum AnyPacketView {
    Framework(FrameworkPacket),
    Regular(PacketView),
}

impl DeepView for AnyPacket {
    type V = AnyPacketView;

    open spec fn deep_view(&self) -> AnyPacketView {
        match self {
            AnyPacket::Framework(p) => AnyPacketView::Framework(*p),
            AnyPacket::Regular(p) => AnyPacketView::Regular(p.deep_view()),
        }
    }
}

/// The bytes that a signed 16-bit length announces from `pos`, cut off at
/// the end of `s`. A negative length takes all that is left.
pub open spec fn counted_bytes(s: Seq<u8>, pos: int, length: i16) -> Seq<u8> {
    if length < 0 {
        s.subrange(pos, s.len() as int)
    } else {
        s.subrange(pos, clamped_end(s, pos, length as int))
    }
}

fn read_counted_bytes(reader: &mut Reader, length: i16) -> (out: Vec<u8>)
    requires
        old(reader).wf(),
    ensures
        final(reader).kept(old(reader)),
        out@ == counted_bytes(old(reader).data(), old(reader).position(), length),
{
    if length < 0 {
        reader.read_remaining()
    } else {
        reader.bytes(length as usize)
    }
}

/// What a packet decoder returned, held against what the bytes say.
pub open spec fn parsed_as(
    r: Result<Packet, PacketError>,
    want: Result<PacketView, PacketError>,
) -> bool {
    match want {
        Ok(v) => r is Ok && r->Ok_0.deep_view() == v,
        Err(e) => r is Err && r->Err_0 == e,
    }
}

/// The packets whose body is a record of fixed width, from `pos`: ids 0, 9,
/// 10, 59 and 69.
pub open spec fn parse_fixed_packet(
    id: u8,
    s: Seq<u8>,
    pos: int,
) -> Result<PacketView, PacketError> {
    if id == 0 {
        if pos + 9 > s.len() {
            Err(PacketError::UnexpectedEnd)
        } else {
            Ok(
                PacketView::StreamBegin {
                    id: u32_at(s, pos),
                    total: u32_at(s, pos + 4),
                    stream_type: s[pos + 8],
                },
            )
        }
    } else if id == 9 {
        if pos + 14 > s.len() {
            Err(PacketError::UnexpectedEnd)
        } else {
            Ok(
                PacketView::BeginBreak {
                    unit: unit_at(s, pos),
                    team: s[pos + 5],
                    x: u32_at(s, pos + 6),
                    y: u32_at(s, pos + 10),
                },
            )
        }
    } else if id == 10 {
        if pos + 20 > s.len() {
            Err(PacketError::UnexpectedEnd)
        } else {
            Ok(
                PacketView::BeginPlace {
                    unit: unit_at(s, pos),
                    result: u16_at(s, pos + 5),
                    team: s[pos + 7],
                    x: u32_at(s, pos + 8),
                    y: u32_at(s, pos + 12),
                    rotation: u32_at(s, pos + 16),
                },
            )
        }
    } else if id == 59 {
        if pos + 8 > s.len() {
            Err(PacketError::UnexpectedEnd)
        } else {
            Ok(
                PacketView::SpawnCall {
                    tile_x: i16_at(s, pos),
                    tile_y: i16_at(s, pos + 2),
                    entity: u32_at(s, pos + 4),
                },
            )
        }
    } else if pos + 9 > s.len() {
        Err(PacketError::UnexpectedEnd)
    } else {
        Ok(
            PacketView::RotateBlockCall {
                entity: u32_at(s, pos),
                tile: tile_at(s, pos + 4),
                rotation: s[pos + 8],
            },
        )
    }
}

fn read_fixed_packet(id: u8, reader: &mut Reader) -> (r: Result<Packet, PacketError>)
    requires
        old(reader).wf(),
        id == 0 || id == 9 || id == 10 || id == 59 || id == 69,
    ensures
        parsed_as(r, parse_fixed_packet(id, old(reader).data(), old(reader).position())),
{
    if id == 0 {
        reader.need(9)?;
        Ok(
            Packet::StreamBegin {
                id: reader.int32(),
                total: reader.int32(),
                stream_type: reader.byte(),
            },
        )
    } else if id == 9 {
        reader.need(14)?;
        Ok(
            Packet::BeginBreak {
                unit: read_unit(reader),
                team: reader.byte(),
                x: reader.int32(),
                y: reader.int32(),
            },
        )
    } else if id == 10 {
        reader.need(20)?;
        Ok(
            Packet::BeginPlace {
                unit: read_unit(reader),
                result: reader.unsigned_short(),
                team: reader.byte(),
                x: reader.int32(),
                y: reader.int32(),
                rotation: reader.int32(),
            },
        )
    } else if id == 59 {
        reader.need(8)?;
        Ok(
            Packet::SpawnCall {
                tile_x: reader.short(),
                tile_y: reader.short(),
                entity: reader.int32(),
            },
        )
    } else {
        reader.need(9)?;
        Ok(
            Packet::RotateBlockCall {
                entity: reader.int32(),
                tile: read_tile(reader),
                rotation: reader.byte(),
            },
        )
    }
}

/// The packets that carry a run of bytes behind a signed 16-bit length, from
/// `pos`: ids 1, 11 and 94.
pub open spec fn parse_bytes_packet(
    id: u8,
    s: Seq<u8>,
    pos: int,
) -> Result<PacketView, PacketError> {
    if id == 1 {
        if pos + 6 > s.len() {
            Err(PacketError::UnexpectedEnd)
        } else {
            Ok(
                PacketView::StreamChunk {
                    id: u32_at(s, pos),
                    data: counted_bytes(s, pos + 6, i16_at(s, pos + 4)),
                },
            )
        }
    } else if id == 11 {
        if pos + 4 > s.len() {
            Err(PacketError::UnexpectedEnd)
        } else {
            Ok(
                PacketView::BlockSnapshot {
                    amount: i16_at(s, pos),
                    data: counted_bytes(s, pos + 4, i16_at(s, pos + 2)),
                },
            )
        }
    } else if pos + 37 > s.len() {
        Err(PacketError::UnexpectedEnd)
    } else {
        Ok(
            PacketView::StateSnapshot {
                wave_time: float_at(s, pos),
                wave: u32_at(s, pos + 4),
                enemies: u32_at(s, pos + 8),
                paused: bool_at(s, pos + 12),
                game_over: bool_at(s, pos + 13),
                time_data: u32_at(s, pos + 14),
                tps: s[pos + 18],
                rand0: u64_at(s, pos + 19),
                rand1: u64_at(s, pos + 27),
                core_data: counted_bytes(s, pos + 37, i16_at(s, pos + 35)),
            },
        )
    }
}

fn read_bytes_packet(id: u8, reader: &mut Reader) -> (r: Result<Packet, PacketError>)
    requires
        old(reader).wf(),
        id == 1 || id == 11 || id == 94,
    ensures
        parsed_as(r, parse_bytes_packet(id, old(reader).data(), old(reader).position())),
{
    if id == 1 {
        reader.need(6)?;
        let id = reader.int32();
        let length = reader.short();
        let data = read_counted_bytes(reader, length);
        Ok(Packet::StreamChunk { id, data })
    } else if id == 11 {
        reader.need(4)?;
        let amount = reader.short();
        let data_length = reader.short();
        let data = read_counted_bytes(reader, data_length);
        Ok(Packet::BlockSnapshot { amount, data })
    } else {
        reader.need(37)?;
        let wave_time = reader.float();
        let wave = reader.int32();
        let enemies = reader.int32();
        let paused = reader.bool();
        let game_over = reader.bool();
        let time_data = reader.int32();
        let tps = reader.byte();
        let rand0 = reader.long();
        let rand1 = reader.long();
        let length = reader.short();
        let core_data = read_counted_bytes(reader, length);
        Ok(
            Packet::StateSnapshot {
                wave_time,
                wave,
                enemies,
                paused,
                game_over,
                time_data,
                tps,
                rand0,
                rand1,
                core_data,
            },
        )
    }
}

/// The packets that end in a tagged object, from `pos`: ids 23 and 99.
pub open spec fn parse_object_packet(id: u8, s: Seq<u8>, pos: int) -> Result<
    PacketView,
    PacketError,
> {
    if id == 23 {
        if pos + 13 > s.len() {
            Err(PacketError::UnexpectedEnd)
        } else {
            match parse_object(s, pos + 13) {
                Err(e) => Err(e),
                Ok((config, _)) => Ok(
                    PacketView::ConstructFinish {
                        tile: tile_at(s, pos),
                        block: i16_at(s, pos + 4),
                        builder: unit_at(s, pos + 6),
                        rotation: s[pos + 11],
                        team: s[pos + 12],
                        config,
                    },
                ),
            }
        }
    } else if pos + 8 > s.len() {
        Err(PacketError::UnexpectedEnd)
    } else {
        match parse_object(s, pos + 8) {
            Err(e) => Err(e),
            Ok((value, _)) => Ok(
                PacketView::TileConfigCall {
                    player: u32_at(s, pos),
                    tile: tile_at(s, pos + 4),
                    value,
                },
            ),
        }
    }
}

fn read_object_packet(id: u8, reader: &mut Reader) -> (r: Result<Packet, PacketError>)
    requires
        old(reader).wf(),
        id == 23 || id == 99,
    ensures
        parsed_as(r, parse_object_packet(id, old(reader).data(), old(reader).position())),
{
    if id == 23 {
        reader.need(13)?;
        let tile = read_tile(reader);
        let block = reader.short();
        let builder = read_unit(reader);
        let rotation = reader.byte();
        let team = reader.byte();
        let config = read_object(reader)?;
        Ok(Packet::ConstructFinish { tile, block, builder, rotation, team, config })
    } else {
        reader.need(8)?;
        let player = reader.int32();
        let tile = read_tile(reader);
        let value = read_object(reader)?;
        Ok(Packet::TileConfigCall { player, tile, value })
    }
}

/// The packets that speak to the player, from `pos`: ids 44, 45 and 73. A
/// text that must be there and is not breaks the protocol.
pub open spec fn parse_text_packet(
    id: u8,
    s: Seq<u8>,
    pos: int,
) -> Result<PacketView, PacketError> {
    if id == 44 {
        match prefixed_string_at(s, pos).0 {
            None => Err(PacketError::ProtocolError),
            Some(reason) => Ok(PacketView::KickCall { reason }),
        }
    } else if id == 45 {
        if pos + 1 > s.len() {
            Err(PacketError::UnexpectedEnd)
        } else {
            match KickReason::of_code(s[pos]) {
                None => Err(PacketError::UnknownKickReason),
                Some(reason) => Ok(PacketView::KickCall2 { reason }),
            }
        }
    } else {
        match prefixed_string_at(s, pos).0 {
            None => Err(PacketError::ProtocolError),
            Some(message) => {
                let p1 = prefixed_string_at(s, pos).1;
                let p2 = prefixed_string_at(s, p1).1;
                if p2 + 4 > s.len() {
                    Err(PacketError::UnexpectedEnd)
                } else {
                    Ok(
                        PacketView::SendMessageCall2 {
                            message,
                            unformatted: prefixed_string_at(s, p1).0,
                            sender: u32_at(s, p2),
                        },
                    )
                }
            },
        }
    }
}

fn read_text_packet(id: u8, reader: &mut Reader) -> (r: Result<Packet, PacketError>)
    requires
        old(reader).wf(),
        id == 44 || id == 45 || id == 73,
    ensures
        parsed_as(r, parse_text_packet(id, old(reader).data(), old(reader).position())),
{
    if id == 44 {
        match read_prefixed_string(reader) {
            Some(reason) => Ok(Packet::KickCall { reason }),
            None => Err(PacketError::ProtocolError),
        }
    } else if id == 45 {
        reader.need(1)?;
        match read_kick(reader) {
            Some(reason) => Ok(Packet::KickCall2 { reason }),
            None => Err(PacketError::UnknownKickReason),
        }
    } else {
        let message = match read_prefixed_string(reader) {
            Some(message) => message,
            None => {
                return Err(PacketError::ProtocolError);
            },
        };
        let unformatted = read_prefixed_string(reader);
        reader.need(4)?;
        let sender = reader.int32();
        Ok(Packet::SendMessageCall2 { message, unformatted, sender })
    }
}

/// One entity of a snapshot from `pos`: its id, its type byte, and the
/// entity itself, without a revision.
pub open spec fn parse_unit_entry(
    s: Seq<u8>,
    pos: int,
    content: Option<ContentView>,
    tables: TablesView,
) -> Parsed<(u32, FullUnitView)> {
    if pos + 5 > s.len() {
        Err(PacketError::UnexpectedEnd)
    } else {
        match parse_full_unit(s, pos + 5, s[pos + 4], false, content, tables) {
            Err(e) => Err(e),
            Ok((unit, next)) => Ok(((u32_at(s, pos), unit), next)),
        }
    }
}

/// The decoder of one entity of a snapshot, as a value.
pub open spec fn unit_entry_item(content: Option<ContentView>, tables: TablesView) -> spec_fn(
    Seq<u8>,
    int,
) -> Parsed<(u32, FullUnitView)> {
    |s: Seq<u8>, p: int| parse_unit_entry(s, p, content, tables)
}

/// The entity snapshot from `pos`: a signed 16-bit count of entities, a
/// signed 16-bit count of bytes, and in that many bytes, taken by
/// themselves, the entities one behind the other.
pub open spec fn parse_entity_snapshot(
    s: Seq<u8>,
    pos: int,
    content: Option<ContentView>,
    tables: TablesView,
) -> Result<PacketView, PacketError> {
    if pos + 4 > s.len() {
        Err(PacketError::UnexpectedEnd)
    } else {
        match repeat(
            unit_entry_item(content, tables),
            counted_bytes(s, pos + 4, i16_at(s, pos + 2)),
            0,
            count_of(i16_at(s, pos) as int),
        ) {
            Err(e) => Err(e),
            Ok((units, _)) => Ok(PacketView::EntitySnapshot { units }),
        }
    }
}

fn read_unit_entry(reader: &mut Reader, content_map: &Option<ContentMap>, tables: &Tables) -> (r:
    Result<UnitEntry, PacketError>)
    requires
        old(reader).wf(),
    ensures
        crate::type_io::decoded(
            r,
            old(reader),
            final(reader),
            parse_unit_entry(
                old(reader).data(),
                old(reader).position(),
                content_map.deep_view(),
                tables.deep_view(),
            ),
        ),
{
    reader.need(5)?;
    let id = reader.int32();
    let unit_type = reader.byte();
    let unit = read_full_unit(reader, unit_type, false, content_map, tables)?;
    Ok(UnitEntry { id, unit })
}

fn read_entity_snapshot(reader: &mut Reader, content_map: &Option<ContentMap>, tables: &Tables) -> (r:
    Result<Packet, PacketError>)
    requires
        old(reader).wf(),
    ensures
        parsed_as(
            r,
            parse_entity_snapshot(
                old(reader).data(),
                old(reader).position(),
                content_map.deep_view(),
                tables.deep_view(),
            ),
        ),
{
    reader.need(4)?;
    let amount = reader.short();
    let byte_count = reader.short();
    let data = read_counted_bytes(reader, byte_count);
    let count: usize = if amount < 0 {
        0
    } else {
        amount as usize
    };
    let mut unit_reader = Reader::new(data);
    let ghost d = unit_reader.data();
    let ghost item = unit_entry_item(content_map.deep_view(), tables.deep_view());
    let mut units: Vec<UnitEntry> = Vec::new();
    let mut i: usize = 0;
    proof {
        lemma_deep_empty::<UnitEntry>();
    }
    while i < count
        invariant
            i <= count,
            unit_reader.wf(),
            unit_reader.data() == d,
            old(reader).position() + 4 <= old(reader).data().len(),
            d == counted_bytes(
                old(reader).data(),
                old(reader).position() + 4,
                i16_at(old(reader).data(), old(reader).position() + 2),
            ),
            count == count_of(i16_at(old(reader).data(), old(reader).position()) as int),
            item == unit_entry_item(content_map.deep_view(), tables.deep_view()),
            repeat(item, d, 0, i as nat) == Ok::<(Seq<(u32, FullUnitView)>, int), PacketError>(
                (deep(units@), unit_reader.position()),
            ),
        decreases count - i,
    {
        match read_unit_entry(&mut unit_reader, content_map, tables) {
            Err(e) => {
                proof {
                    lemma_repeat_fails(item, d, 0, (i + 1) as nat, count as nat);
                }
                return Err(e);
            },
            Ok(entry) => {
                proof {
                    lemma_deep_push(units@, entry);
                }
                units.push(entry);
            },
        }
        i += 1;
    }
    proof {
        lemma_deep_vec(units);
    }
    Ok(Packet::EntitySnapshot { units })
}

/// The contents of an optional run of bytes.
pub open spec fn bytes_of(o: Option<Vec<u8>>) -> Option<Seq<u8>> {
    match o {
        Some(v) => Some(v@),
        None => None,
    }
}

/// What `lz4::block::compress` returns for `src` in its default mode and
/// without a size in front, where it succeeds.
pub uninterp spec fn lz4_block(src: Seq<u8>) -> Option<Seq<u8>>;

/// What `lz4::block::decompress` returns for `src` and the declared size
/// `size`, where it succeeds.
pub uninterp spec fn lz4_unblock(src: Seq<u8>, size: int) -> Option<Seq<u8>>;

/// What a `flate2::read::ZlibDecoder` over `src` yields when it is read to
/// its end, where that succeeds.
pub uninterp spec fn zlib_inflated(src: Seq<u8>) -> Option<Seq<u8>>;

/// What the standard engine of the crate base64 decodes `text` to, where
/// `text` is valid base64.
pub uninterp spec fn base64_decoded(text: Seq<char>) -> Option<Seq<u8>>;

/// `lz4::block::compress` in its default mode, without a size in front. Its
/// error is dropped. The contract only names the result.
#[verifier::external_body]
fn lz4_compress(src: &[u8]) -> (r: Option<Vec<u8>>)
    ensures
        bytes_of(r) == lz4_block(src@),
{
    lz4::block::compress(src, None, false).ok()
}

/// `lz4::block::decompress` with the declared size. Its error is dropped.
/// The contract only names the result; inputs whose length does not fit the
/// 32-bit signed number that the crate hands on are left out.
#[verifier::external_body]
fn lz4_decompress(src: &[u8], size: u16) -> (r: Option<Vec<u8>>)
    requires
        src@.len() <= 2147483647,
    ensures
        bytes_of(r) == lz4_unblock(src@, size as int),
{
    lz4::block::decompress(src, Some(size as i32)).ok()
}

/// `read_to_end` on a `flate2::read::ZlibDecoder` over `src`. Its error is
/// dropped, and with it what was read before the error. The contract only
/// names the result.
#[verifier::external_body]
fn zlib_inflate(src: &[u8]) -> (r: Option<Vec<u8>>)
    ensures
        bytes_of(r) == zlib_inflated(src@),
{
    let mut data = Vec::new();
    match std::io::Read::read_to_end(&mut flate2::read::ZlibDecoder::new(src), &mut data) {
        Ok(_) => Some(data),
        Err(_) => None,
    }
}

/// `decode` of the standard engine of the crate base64. Its error is
/// dropped. The contract only names the result.
#[verifier::external_body]
fn base64_decode(text: &str) -> (r: Option<Vec<u8>>)
    ensures
        bytes_of(r) == base64_decoded(text@),
{
    base64::Engine::decode(&base64::engine::general_purpose::STANDARD, text).ok()
}

/// The world that inflated world data holds, from its first byte: the rules
/// as a length-prefixed string, a string map, the wave, its countdown, the
/// tick, two seeds and the player's id; 17 bytes that are read past, a
/// tagged-optional string, and 16 bytes more; then the content header and
/// the map, which is decoded with the content map that the header gave.
/// What follows the map is left alone.
#[verifier::opaque]
pub open spec fn parse_world(d: Seq<u8>, tables: TablesView) -> Result<PacketView, PacketError> {
    if 2 > d.len() {
        Err(PacketError::UnexpectedEnd)
    } else {
        match parse_string_map(d, string_at(d, 0).1) {
            Err(e) => Err(e),
            Ok((_, p2)) => if p2 + 53 > d.len() {
                Err(PacketError::UnexpectedEnd)
            } else if prefixed_string_at(d, p2 + 53).1 + 16 > d.len() {
                Err(PacketError::UnexpectedEnd)
            } else {
                match parse_content_header(
                    tables.content_types,
                    d,
                    prefixed_string_at(d, p2 + 53).1 + 16,
                ) {
                    Err(e) => Err(e),
                    Ok((content, p6)) => match parse_map(d, p6, content, tables) {
                        Err(e) => Err(e),
                        Ok((map, _)) => Ok(
                            PacketView::WorldStream {
                                wave: u32_at(d, p2),
                                wave_time: float_at(d, p2 + 4),
                                tick: Double { bits: u64_at(d, p2 + 8) },
                                seed0: u64_at(d, p2 + 16),
                                seed1: u64_at(d, p2 + 24),
                                id: u32_at(d, p2 + 32),
                                content_map: content,
                                map,
                            },
                        ),
                    },
                }
            },
        }
    }
}

/// Decodes inflated world data.
pub fn parse_world_data(data: Vec<u8>, tables: &Tables) -> (r: Result<Packet, PacketError>)
    ensures
        parsed_as(r, parse_world(data@, tables.deep_view())),
        r matches Ok(Packet::WorldStream { map, .. }) ==> map.wf(),
        r is Ok ==> r->Ok_0 is WorldStream,
{
    reveal(parse_world);
    let mut reader = Reader::new(data);
    reader.need(2)?;
    read_string(&mut reader);
    read_string_map(&mut reader)?;
    reader.need(53)?;
    let wave = reader.int32();
    let wave_time = reader.float();
    let tick = reader.double();
    let seed0 = reader.long();
    let seed1 = reader.long();
    let id = reader.int32();
    reader.skip(17);
    read_prefixed_string(&mut reader);
    reader.need(16)?;
    reader.skip(16);
    let content_map = read_content_header(&mut reader, &tables.content_types)?;
    let map = read_map(&mut reader, &content_map, tables)?;
    Ok(Packet::WorldStream { wave, wave_time, tick, seed0, seed1, id, content_map, map })
}

/// The packet with the id `id` whose body starts at `pos`. The body of a
/// world stream is a zlib stream of its own; a packet of an id without a
/// decoder is `Other`.
pub open spec fn parse_regular(
    id: u8,
    s: Seq<u8>,
    pos: int,
    content: Option<ContentView>,
    tables: TablesView,
) -> Result<PacketView, PacketError> {
    if id == 0 || id == 9 || id == 10 || id == 59 || id == 69 {
        parse_fixed_packet(id, s, pos)
    } else if id == 1 || id == 11 || id == 94 {
        parse_bytes_packet(id, s, pos)
    } else if id == 23 || id == 99 {
        parse_object_packet(id, s, pos)
    } else if id == 44 || id == 45 || id == 73 {
        parse_text_packet(id, s, pos)
    } else if id == 34 {
        parse_entity_snapshot(s, pos, content, tables)
    } else if id == 2 {
        match zlib_inflated(s.subrange(pos, s.len() as int)) {
            None => Err(PacketError::WorldDataDecompressionFailed),
            Some(d) => parse_world(d, tables),
        }
    } else {
        Ok(PacketView::Other(id))
    }
}

/// Decodes the body of a packet with the id `id`. Bytes that the packet's
/// layout leaves over are ignored.
pub fn parse_regular_packet(
    id: u8,
    reader: Reader,
    content_map: &Option<ContentMap>,
    tables: &Tables,
) -> (r: Result<Packet, PacketError>)
    requires
        reader.wf(),
    ensures
        parsed_as(
            r,
            parse_regular(
                id,
                reader.data(),
                reader.position(),
                content_map.deep_view(),
                tables.deep_view(),
            ),
        ),
        r matches Ok(Packet::WorldStream { map, .. }) ==> map.wf(),
{
    let mut reader = reader;
    if id == 0 || id == 9 || id == 10 || id == 59 || id == 69 {
        read_fixed_packet(id, &mut reader)
    } else if id == 1 || id == 11 || id == 94 {
        read_bytes_packet(id, &mut reader)
    } else if id == 23 || id == 99 {
        read_object_packet(id, &mut reader)
    } else if id == 44 || id == 45 || id == 73 {
        read_text_packet(id, &mut reader)
    } else if id == 34 {
        read_entity_snapshot(&mut reader, content_map, tables)
    } else if id == 2 {
        let remaining = reader.read_remaining();
        match zlib_inflate(remaining.as_slice()) {
            None => Err(PacketError::WorldDataDecompressionFailed),
            Some(data) => parse_world_data(data, tables),
        }
    } else {
        Ok(Packet::Other(id))
    }
}

/// A decoded game packet as a packet of either protocol.
pub open spec fn as_regular(r: Result<PacketView, PacketError>) -> Result<
    AnyPacketView,
    PacketError,
> {
    match r {
        Ok(p) => Ok(AnyPacketView::Regular(p)),
        Err(e) => Err(e),
    }
}

/// The packet in the frame `s`, which is what follows the length on the
/// reliable channel, or one datagram. Id 254 opens a framework packet. Any
/// other id is followed by the declared length of the body and a flag; with
/// the flag 1 the rest is an LZ4 block that must expand to exactly the
/// declared length, and the body is what it expands to.
pub open spec fn parse_any(s: Seq<u8>, content: Option<ContentView>, tables: TablesView) -> Result<
    AnyPacketView,
    PacketError,
> {
    if s.len() < 1 {
        Err(PacketError::UnexpectedEnd)
    } else if s[0] == 254 {
        match framework_at(s, 1) {
            Ok(p) => Ok(AnyPacketView::Framework(p)),
            Err(e) => Err(e),
        }
    } else if s.len() < 4 {
        Err(PacketError::UnexpectedEnd)
    } else if s[3] == 1 {
        if s.len() - 4 > 2147483647 {
            Err(PacketError::DecompressionFailed)
        } else {
            match lz4_unblock(s.subrange(4, s.len() as int), u16_at(s, 1) as int) {
                None => Err(PacketError::DecompressionFailed),
                Some(d) => if d.len() != u16_at(s, 1) {
                    Err(PacketError::DecompressionFailed)
                } else {
                    as_regular(parse_regular(s[0], d, 0, content, tables))
                },
            }
        }
    } else {
        as_regular(parse_regular(s[0], s, 4, content, tables))
    }
}

/// What a frame decoder returned, held against what the bytes say.
pub open spec fn parsed_any(r: Result<AnyPacket, PacketError>, want: Result<
    AnyPacketView,
    PacketError,
>) -> bool {
    match want {
        Ok(v) => r is Ok && r->Ok_0.deep_view() == v,
        Err(e) => r is Err && r->Err_0 == e,
    }
}

/// Decodes one frame.
pub fn parse_packet(buf: Vec<u8>, content_map: &Option<ContentMap>, tables: &Tables) -> (r: Result<
    AnyPacket,
    PacketError,
>)
    ensures
        parsed_any(r, parse_any(buf@, content_map.deep_view(), tables.deep_view())),
        r matches Ok(AnyPacket::Regular(Packet::WorldStream { map, .. })) ==> map.wf(),
{
    let mut reader = Reader::new(buf);
    reader.need(1)?;
    let id = reader.byte();
    if id == 254 {
        return match parse_framework_packet(reader) {
            Ok(p) => Ok(AnyPacket::Framework(p)),
            Err(e) => Err(e),
        };
    }
    reader.need(3)?;
    let data_length = reader.unsigned_short();
    let compressed = reader.byte();
    if compressed == 1 {
        let rest = reader.read_remaining();
        if rest.len() > 2147483647 {
            return Err(PacketError::DecompressionFailed);
        }
        let data = match lz4_decompress(rest.as_slice(), data_length) {
            Some(data) => data,
            None => {
                return Err(PacketError::DecompressionFailed);
            },
        };
        if data.len() != data_length as usize {
            return Err(PacketError::DecompressionFailed);
        }
        reader = Reader::new(data);
    }
    match parse_regular_packet(id, reader, content_map, tables) {
        Ok(p) => Ok(AnyPacket::Regular(p)),
        Err(e) => Err(e),
    }
}

/// The bytes of a run of tagged-optional strings, or nothing where one of
/// them does not fit its length prefix.
pub open spec fn strings_bytes(v: Seq<Seq<char>>) -> Option<Seq<u8>>
    decreases v.len(),
{
    if v.len() == 0 {
        Some(Seq::empty())
    } else {
        match strings_bytes(v.drop_last()) {
            None => None,
            Some(head) => if string_fits(v.last()) {
                Some(head + prefixed_string_bytes(v.last()))
            } else {
                None
            },
        }
    }
}

/// Once a string of a run does not fit, no longer run has bytes.
pub proof fn lemma_strings_fail(v: Seq<Seq<char>>, k: int)
    requires
        0 <= k <= v.len(),
        strings_bytes(v.subrange(0, k)) is None,
    ensures
        strings_bytes(v) is None,
    decreases v.len(),
{
    if k < v.len() {
        assert(v.drop_last().subrange(0, k) =~= v.subrange(0, k));
        lemma_strings_fail(v.drop_last(), k);
    } else {
        assert(v.subrange(0, k) =~= v);
    }
}

/// Eight zero bytes.
pub open spec fn zeros8() -> Seq<u8> {
    seq![0u8, 0u8, 0u8, 0u8, 0u8, 0u8, 0u8, 0u8]
}

/// The body of a connect packet: the protocol version, four tagged-optional
/// strings, the bytes of the unique id, eight zero bytes in the place of a
/// checksum, the mobile flag, the colour, and the mods as a count in one
/// byte and that many strings. `uuid` is what the id decodes to.
pub open spec fn connect_bytes(p: PacketView, uuid: Seq<u8>) -> Result<Seq<u8>, PacketError>
    recommends
        p is Connect,
{
    if !string_fits(p->client) || !string_fits(p->Connect_name) || !string_fits(p->lang)
        || !string_fits(p->usid) || p->mods.len() > 255 || strings_bytes(p->mods) is None {
        Err(PacketError::EncodingTooLong)
    } else {
        Ok(
            Seq::<u8>::empty() + be32(p->version) + prefixed_string_bytes(p->client)
                + prefixed_string_bytes(p->Connect_name) + prefixed_string_bytes(p->lang)
                + prefixed_string_bytes(p->usid) + uuid + zeros8() + seq![bool_byte(p->mobile)]
                + p->color + seq![p->mods.len() as u8] + strings_bytes(p->mods)->Some_0,
        )
    }
}

/// The body of a client snapshot: its fields in their order, with the plans
/// as a list counted by an unsigned 32-bit number.
pub open spec fn snapshot_bytes(p: PacketView) -> Result<Seq<u8>, PacketError>
    recommends
        p is ClientSnapshot,
{
    match plans_bytes(p->plans) {
        Err(e) => Err(e),
        Ok(plans) => Ok(
            Seq::<u8>::empty() + be32(p->snapshot_id) + be32(p->unit_id) + seq![
                bool_byte(p->dead),
            ] + be32(p->ClientSnapshot_x.bits) + be32(p->ClientSnapshot_y.bits) + be32(
                p->pointer_x.bits,
            ) + be32(p->pointer_y.bits) + be32(p->ClientSnapshot_rotation.bits) + be32(
                p->base_rotation.bits,
            ) + be32(p->x_velocity.bits) + be32(p->y_velocity.bits) + be16(p->mining_x) + be16(
                p->mining_y,
            ) + seq![bool_byte(p->boosting)] + seq![bool_byte(p->shooting)] + seq![
                bool_byte(p->chatting),
            ] + seq![bool_byte(p->building)] + plans + be32(p->view_x.bits) + be32(
                p->view_y.bits,
            ) + be32(p->view_width.bits) + be32(p->view_height.bits),
        ),
    }
}

/// The id under which a packet is written and the bytes of its body. Only
/// the four packets that a client sends have a body of their own; every
/// other packet is written under id 0 with an empty body. `uuid` is what the
/// unique id of a connect packet decodes to, if it is valid base64.
pub open spec fn payload_of(p: PacketView, uuid: Option<Seq<u8>>) -> Result<
    (u8, Seq<u8>),
    PacketError,
> {
    match p {
        PacketView::Connect { .. } => match uuid {
            None => Err(PacketError::ProtocolError),
            Some(u) => match connect_bytes(p, u) {
                Err(e) => Err(e),
                Ok(b) => Ok((3u8, b)),
            },
        },
        PacketView::ClientSnapshot { .. } => match snapshot_bytes(p) {
            Err(e) => Err(e),
            Ok(b) => Ok((18u8, b)),
        },
        PacketView::ConnectCallConfirm => Ok((22u8, Seq::empty())),
        PacketView::SendChatMessageCall { message } => if string_fits(message) {
            Ok((71u8, prefixed_string_bytes(message)))
        } else {
            Err(PacketError::EncodingTooLong)
        },
        _ => Ok((0u8, Seq::empty())),
    }
}

fn write_strings(buf: &mut Vec<u8>, texts: &Vec<String>) -> (r: Result<(), PacketError>)
    ensures
        match strings_bytes(texts.deep_view()) {
            Some(bytes) => r is Ok && final(buf)@ == old(buf)@ + bytes,
            None => r is Err && r->Err_0 == PacketError::EncodingTooLong,
        },
{
    proof {
        lemma_deep_vec(*texts);
    }
    let ghost all = deep(texts@);
    let ghost mut run: Seq<u8> = Seq::empty();
    let mut i: usize = 0;
    assert(all.subrange(0, 0) =~= Seq::<Seq<char>>::empty());
    assert(buf@ =~= old(buf)@ + run);
    while i < texts.len()
        invariant
            i <= texts.len(),
            all == deep(texts@),
            all == texts.deep_view(),
            strings_bytes(all.subrange(0, i as int)) == Some(run),
            buf@ == old(buf)@ + run,
        decreases texts.len() - i,
    {
        proof {
            assert(all.subrange(0, i + 1).drop_last() =~= all.subrange(0, i as int));
            assert(all.subrange(0, i + 1).last() == texts@[i as int]@);
        }
        match write_string(buf, texts[i].as_str()) {
            Err(e) => {
                proof {
                    lemma_strings_fail(all, i + 1);
                }
                return Err(e);
            },
            Ok(()) => {},
        }
        proof {
            let added = prefixed_string_bytes(texts@[i as int]@);
            assert(old(buf)@ + run + added =~= old(buf)@ + (run + added));
            run = run + added;
        }
        i += 1;
    }
    assert(all.subrange(0, i as int) =~= all);
    Ok(())
}

fn write_connect(packet: &Packet, uuid_bytes: &Vec<u8>) -> (r: Result<Vec<u8>, PacketError>)
    requires
        packet is Connect,
    ensures
        match connect_bytes(packet.deep_view(), uuid_bytes@) {
            Ok(b) => r is Ok && r->Ok_0@ == b,
            Err(e) => r is Err && r->Err_0 == e,
        },
{
    let mut data: Vec<u8> = Vec::new();
    match packet {
        Packet::Connect { version, client, name, lang, usid, uuid, mobile, color, mods } => {
            if mods.len() > 255 {
                return Err(PacketError::EncodingTooLong);
            }
            let mut tail: Vec<u8> = Vec::new();
            write_strings(&mut tail, mods)?;
            assert(tail@ =~= strings_bytes(mods.deep_view())->Some_0);
            write_int(&mut data, *version);
            write_string(&mut data, client.as_str())?;
            write_string(&mut data, name.as_str())?;
            write_string(&mut data, lang.as_str())?;
            write_string(&mut data, usid.as_str())?;
            write_bytes(&mut data, uuid_bytes.as_slice());
            let mut k: usize = 0;
            let ghost head = data@;
            while k < 8
                invariant
                    k <= 8,
                    data@ == head + zeros8().subrange(0, k as int),
                decreases 8 - k,
            {
                data.push(0);
                k += 1;
                assert(data@ =~= head + zeros8().subrange(0, k as int));
            }
            assert(zeros8().subrange(0, 8) =~= zeros8());
            write_bool(&mut data, *mobile);
            write_bytes(&mut data, color.as_slice());
            write_byte(&mut data, mods.len() as u8);
            write_bytes(&mut data, tail.as_slice());
            assert(data@ =~= connect_bytes(packet.deep_view(), uuid_bytes@)->Ok_0);
            Ok(data)
        },
        _ => Ok(data),
    }
}

#[verifier::rlimit(50)]
fn write_snapshot(packet: &Packet) -> (r: Result<Vec<u8>, PacketError>)
    requires
        packet is ClientSnapshot,
    ensures
        match snapshot_bytes(packet.deep_view()) {
            Ok(b) => r is Ok && r->Ok_0@ == b,
            Err(e) => r is Err && r->Err_0 == e,
        },
{
    let mut data: Vec<u8> = Vec::new();
    match packet {
        Packet::ClientSnapshot {
            snapshot_id,
            unit_id,
            dead,
            x,
            y,
            pointer_x,
            pointer_y,
            rotation,
            base_rotation,
            x_velocity,
            y_velocity,
            mining_x,
            mining_y,
            boosting,
            shooting,
            chatting,
            building,
            plans,
            view_x,
            view_y,
            view_width,
            view_height,
        } => {
            let mut list: Vec<u8> = Vec::new();
            write_plans(&mut list, plans)?;
            assert(list@ =~= plans_bytes(plans.deep_view())->Ok_0);
            assert(data@ =~= Seq::<u8>::empty());
            write_int(&mut data, *snapshot_id);
            write_int(&mut data, *unit_id);
            write_bool(&mut data, *dead);
            write_float(&mut data, *x);
            write_float(&mut data, *y);
            write_float(&mut data, *pointer_x);
            write_float(&mut data, *pointer_y);
            write_float(&mut data, *rotation);
            write_float(&mut data, *base_rotation);
            write_float(&mut data, *x_velocity);
            write_float(&mut data, *y_velocity);
            let ghost half = data@;
            assert(half == Seq::<u8>::empty() + be32(*snapshot_id) + be32(*unit_id) + seq![
                bool_byte(*dead),
            ] + be32(x.bits) + be32(y.bits) + be32(pointer_x.bits) + be32(pointer_y.bits) + be32(
                rotation.bits,
            ) + be32(base_rotation.bits) + be32(x_velocity.bits) + be32(y_velocity.bits));
            write_unsigned_short(&mut data, *mining_x);
            write_unsigned_short(&mut data, *mining_y);
            write_bool(&mut data, *boosting);
            write_bool(&mut data, *shooting);
            write_bool(&mut data, *chatting);
            write_bool(&mut data, *building);
            write_bytes(&mut data, list.as_slice());
            write_float(&mut data, *view_x);
            write_float(&mut data, *view_y);
            write_float(&mut data, *view_width);
            write_float(&mut data, *view_height);
            Ok(data)
        },
        _ => Ok(data),
    }
}

/// Writes the body of a packet and names the id under which it travels.
/// `uuid_bytes` is what the unique id of a connect packet decodes to, or
/// nothing where it is not valid base64; no other packet looks at it.
pub fn write_payload(packet: &Packet, uuid_bytes: Option<&Vec<u8>>) -> (r: Result<
    (u8, Vec<u8>),
    PacketError,
>)
    ensures
        match payload_of(
            packet.deep_view(),
            match uuid_bytes {
                Some(u) => Some(u@),
                None => None,
            },
        ) {
            Ok((id, body)) => r is Ok && r->Ok_0.0 == id && r->Ok_0.1@ == body,
            Err(e) => r is Err && r->Err_0 == e,
        },
{
    match packet {
        Packet::Connect { .. } => match uuid_bytes {
            None => Err(PacketError::ProtocolError),
            Some(u) => {
                let body = write_connect(packet, u)?;
                Ok((3, body))
            },
        },
        Packet::ClientSnapshot { .. } => {
            let body = write_snapshot(packet)?;
            Ok((18, body))
        },
        Packet::ConnectCallConfirm => Ok((22, Vec::new())),
        Packet::SendChatMessageCall { message } => {
            let mut body: Vec<u8> = Vec::new();
            write_string(&mut body, message.as_str())?;
            assert(body@ =~= prefixed_string_bytes(message@));
            Ok((71, body))
        },
        _ => Ok((0, Vec::new())),
    }
}

/// The frame of a packet on the reliable channel: the length of what
/// follows, the id, the length of the body, a flag, and the body. A body
/// that with its four bytes of header takes more than 35 bytes travels as
/// the LZ4 block `packed` under the flag 1, and the length of the body is
/// that of the body before it was packed. A body or a block that does not
/// fit its 16-bit length has no frame, nor has a body that could not be
/// packed.
pub open spec fn framed(id: u8, body: Seq<u8>, packed: Option<Seq<u8>>) -> Result<
    Seq<u8>,
    PacketError,
> {
    if body.len() + 4 <= 35 {
        Ok(
            be16((body.len() + 4) as u16) + seq![id] + be16(body.len() as u16) + seq![0u8]
                + body,
        )
    } else if body.len() > 65535 {
        Err(PacketError::EncodingTooLong)
    } else {
        match packed {
            None => Err(PacketError::EncodingTooLong),
            Some(block) => if block.len() + 4 > 65535 {
                Err(PacketError::EncodingTooLong)
            } else {
                Ok(
                    be16((block.len() + 4) as u16) + seq![id] + be16(body.len() as u16) + seq![
                        1u8,
                    ] + block,
                )
            },
        }
    }
}

/// Frames a packet. `packed` is the body as an LZ4 block; a body that is
/// short enough to travel as it is does not look at it.
pub fn frame_packet(id: u8, body: &Vec<u8>, packed: Option<&Vec<u8>>) -> (r: Result<
    Vec<u8>,
    PacketError,
>)
    ensures
        match framed(
            id,
            body@,
            match packed {
                Some(b) => Some(b@),
                None => None,
            },
        ) {
            Ok(f) => r is Ok && r->Ok_0@ == f,
            Err(e) => r is Err && r->Err_0 == e,
        },
{
    let mut buf: Vec<u8> = Vec::new();
    if body.len() <= 31 {
        write_unsigned_short(&mut buf, (body.len() + 4) as u16);
        buf.push(id);
        write_unsigned_short(&mut buf, body.len() as u16);
        buf.push(0x00);
        write_bytes(&mut buf, body.as_slice());
        assert(buf@ =~= be16((body@.len() + 4) as u16) + seq![id] + be16(body@.len() as u16)
            + seq![0u8] + body@);
        return Ok(buf);
    }
    if body.len() > 65535 {
        return Err(PacketError::EncodingTooLong);
    }
    match packed {
        None => Err(PacketError::EncodingTooLong),
        Some(block) => {
            if block.len() > 65531 {
                return Err(PacketError::EncodingTooLong);
            }
            write_unsigned_short(&mut buf, (block.len() + 4) as u16);
            buf.push(id);
            write_unsigned_short(&mut buf, body.len() as u16);
            buf.push(0x01);
            write_bytes(&mut buf, block.as_slice());
            assert(buf@ =~= be16((block@.len() + 4) as u16) + seq![id] + be16(
                body@.len() as u16,
            ) + seq![1u8] + block@);
            Ok(buf)
        },
    }
}

/// In every frame the flag is 0 exactly when the body with its four bytes of
/// header takes no more than 35 bytes; otherwise it is 1, and the declared
/// length is that of the body before it was packed.
pub proof fn lemma_frame_flag(id: u8, body: Seq<u8>, packed: Option<Seq<u8>>)
    ensures
        framed(id, body, packed) matches Ok(f) ==> {
            &&& f.len() >= 6
            &&& f[2] == id
            &&& u16_at(f, 3) == body.len()
            &&& (body.len() + 4 <= 35 ==> f[5] == 0 && f.subrange(6, f.len() as int) == body)
            &&& (body.len() + 4 > 35 ==> f[5] == 1 && Some(f.subrange(6, f.len() as int))
                == packed)
        },
{
    match framed(id, body, packed) {
        Err(_) => {},
        Ok(f) => {
            assert(f.subrange(3, 5) =~= be16(body.len() as u16));
            lemma_u16_round_trip(f, 3, body.len() as u16);
            if body.len() + 4 <= 35 {
                assert(f.subrange(6, f.len() as int) =~= body);
            } else {
                assert(f.subrange(6, f.len() as int) =~= packed->Some_0);
            }
        },
    }
}

/// The unique id of a connect packet as bytes, where it is valid base64;
/// nothing for any other packet.
pub open spec fn uuid_of(p: PacketView) -> Option<Seq<u8>> {
    match p {
        PacketView::Connect { uuid, .. } => base64_decoded(uuid),
        _ => None,
    }
}

/// The frame of a packet: its body under its id, framed, and packed where
/// the frame would be longer than 35 bytes.
#[verifier::opaque]
pub open spec fn packet_bytes(p: PacketView) -> Result<Seq<u8>, PacketError> {
    match payload_of(p, uuid_of(p)) {
        Err(e) => Err(e),
        Ok((id, body)) => framed(id, body, lz4_block(body)),
    }
}

/// Writes a packet as a frame for the reliable channel.
pub fn write_packet(packet: &Packet) -> (r: Result<Vec<u8>, PacketError>)
    ensures
        match packet_bytes(packet.deep_view()) {
            Ok(f) => r is Ok && r->Ok_0@ == f,
            Err(e) => r is Err && r->Err_0 == e,
        },
{
    reveal(packet_bytes);
    let uuid_bytes = match packet {
        Packet::Connect { uuid, .. } => base64_decode(uuid.as_str()),
        _ => None,
    };
    let (id, body) = write_payload(packet, uuid_bytes.as_ref())?;
    if body.len() <= 31 {
        frame_packet(id, &body, None)
    } else {
        let packed = lz4_compress(body.as_slice());
        frame_packet(id, &body, packed.as_ref())
    }
}

} // verus!
