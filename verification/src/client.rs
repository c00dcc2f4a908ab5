//! The session of a client: what it knows, how each packet changes that, and
//! what it sends back.

use crate::arc_types::{signed16, to_signed16};
use crate::block_io::{
    parse_named_block, read_named_block, resolve, resolve_block, BaseBlockData, BaseBlockView,
    Block, BlockView,
};
use crate::packet::{
    frame_reliable, framework_bytes, packet_bytes, parse_regular, reliable_frame,
    write_framework_packet, write_packet, FrameworkPacket, Packet, PacketError, PacketView,
    UnitEntry,
};
use crate::save_io::{cell_index, MapTileView, TileMap, TileMapView};
use crate::stream_builder::{StreamBuilder, StreamView};
use crate::tables::{ContentMap, ContentView, Tables, TablesView};
use crate::type_io::{
    deep, float_of, i16_at, read_tile, tile_at, Float, KickReason, Reader, Tile, Unit,
};
use crate::unit_io::{copy_plans, FullUnit, FullUnitView, Plan, PlanView};
use vstd::prelude::*;

verus! {

/// Bytes that wait to be sent, and the channel that they are meant for.
#[derive(Debug, Clone)]
pub struct QueuedPacket {
    pub reliable: bool,
    pub packet: Vec<u8>,
}

impl DeepView for QueuedPacket {
    type V = (bool, Seq<u8>);

    open spec fn deep_view(&self) -> (bool, Seq<u8>) {
        (self.reliable, self.packet@)
    }
}

/// What the user of a client is told.
#[derive(Debug, Clone)]
pub enum ClientEvent {
    MapLoaded,
    BlockChanged { tile: Tile },
    UnitSnapshot,
    ChatMessage { message: String, unformatted: Option<String>, sender: u32 },
}

/// What a `ClientEvent` holds, as plain mathematical values.
pub enum ClientEventView {
    MapLoaded,
    BlockChanged { tile: Tile },
    UnitSnapshot,
    ChatMessage { message: Seq<char>, unformatted: Option<Seq<char>>, sender: u32 },
}

impl DeepView for ClientEvent {
    type V = ClientEventView;

    open spec fn deep_view(&self) -> ClientEventView {
        match self {
            ClientEvent::MapLoaded => ClientEventView::MapLoaded,
            ClientEvent::BlockChanged { tile } => ClientEventView::BlockChanged { tile: *tile },
            ClientEvent::UnitSnapshot => ClientEventView::UnitSnapshot,
            ClientEvent::ChatMessage {
                message,
                unformatted,
                sender,
            } => ClientEventView::ChatMessage {
                message: message@,
                unformatted: unformatted.deep_view(),
                sender: *sender,
            },
        }
    }
}

/// What a client writes to its log and otherwise passes over.
#[derive(Debug, Clone, Copy, PartialEq, Eq, Structural)]
pub enum Note {
    /// A chunk came for a stream that is not open.
    StreamNotFound(u32),
    /// A completed stream did not decode.
    StreamFailed(u32, PacketError),
    /// A packet spoke of a tile that the map does not have.
    TileNotInMap(Tile),
    /// A block was begun at a place that the map does not have.
    PlaceNotInMap(u32, u32),
    /// A packet needed a content map, and none is known.
    ContentMapMissing,
    /// A block id did not resolve to a name and a type.
    UnknownBlock(i16, PacketError),
    /// A block was finished on a tile that held no placeholder.
    PlaceholderMissing(Tile),
    /// A snapshot named another block than the map has on the tile.
    BlockIdMismatch(Tile),
    /// A block snapshot ended early.
    SnapshotCut(PacketError),
    /// The server removed the player, with a reason in words.
    KickedText,
    /// The server removed the player.
    Kicked(KickReason),
    /// A packet of an id that the client does not handle.
    Unhandled(u8),
}

/// The part of a session that the snapshot task reads.
#[derive(Debug, Clone)]
pub struct State {
    pub player_id: u32,
    pub unit: Unit,
    pub x: Float,
    pub y: Float,
    pub chatting: bool,
    pub plans: Vec<Plan>,
    pub units: Vec<UnitEntry>,
    pub map: TileMap,
}

/// What a `State` holds, as plain mathematical values.
pub struct StateView {
    pub player_id: u32,
    pub unit: Unit,
    pub x: Float,
    pub y: Float,
    pub chatting: bool,
    pub plans: Seq<PlanView>,
    pub units: Seq<(u32, FullUnitView)>,
    pub map: TileMapView,
}

impl DeepView for State {
    type V = StateView;

    open spec fn deep_view(&self) -> StateView {
        StateView {
            player_id: self.player_id,
            unit: self.unit,
            x: self.x,
            y: self.y,
            chatting: self.chatting,
            plans: self.plans.deep_view(),
            units: self.units.deep_view(),
            map: self.map.deep_view(),
        }
    }
}

/// Everything that a client knows between two packets.
#[derive(Debug, Clone)]
pub struct Session {
    pub state: State,
    pub username: String,
    pub streams: Vec<StreamBuilder>,
    pub content_map: Option<ContentMap>,
}

/// What a `Session` holds, as plain mathematical values.
pub struct SessionView {
    pub state: StateView,
    pub username: Seq<char>,
    pub streams: Seq<StreamView>,
    pub content_map: Option<ContentView>,
}

impl DeepView for Session {
    type V = SessionView;

    open spec fn deep_view(&self) -> SessionView {
        SessionView {
            state: self.state.deep_view(),
            username: self.username@,
            streams: self.streams.deep_view(),
            content_map: self.content_map.deep_view(),
        }
    }
}

/// The pattern of minus one, which stands for a position that is not known.
pub open spec fn unknown_position() -> Float {
    Float { bits: 0xBF80_0000 }
}

/// What a client sends in answer to a framework packet, and whether it is
/// to start the periodic snapshots.
#[derive(Debug, Clone)]
pub struct Handshake {
    pub out: Vec<QueuedPacket>,
    pub start_snapshots: bool,
}

/// What a `Handshake` holds, as plain mathematical values.
pub struct HandshakeView {
    pub out: Seq<(bool, Seq<u8>)>,
    pub start_snapshots: bool,
}

impl DeepView for Handshake {
    type V = HandshakeView;

    open spec fn deep_view(&self) -> HandshakeView {
        HandshakeView { out: self.out.deep_view(), start_snapshots: self.start_snapshots }
    }
}

/// The packet with which a client named `username` introduces itself.
pub open spec fn connect_packet(username: Seq<char>) -> PacketView {
    PacketView::Connect {
        version: 146,
        client: "official"@,
        name: username,
        lang: "en"@,
        usid: "USIGAAAAAAA="@,
        uuid: "UUIGAAAAAAA="@,
        mobile: false,
        color: seq![0xffu8, 0xa1u8, 0x08u8, 0xffu8],
        mods: Seq::empty(),
    }
}

/// What a client named `username` does on a framework packet. The server's
/// registration on the reliable channel is answered on the datagram channel
/// with the same session id. When the server echoes that, the client sends
/// its connect packet and its confirmation on the reliable channel, and
/// starts the periodic snapshots. Nothing else is answered.
pub open spec fn handshake(username: Seq<char>, packet: FrameworkPacket) -> Result<
    HandshakeView,
    PacketError,
> {
    match packet {
        FrameworkPacket::RegisterTCP(id) => Ok(
            HandshakeView {
                out: seq![(false, framework_bytes(FrameworkPacket::RegisterUDP(id)))],
                start_snapshots: false,
            },
        ),
        FrameworkPacket::RegisterUDP(_) => match packet_bytes(connect_packet(username)) {
            Err(e) => Err(e),
            Ok(connect) => match packet_bytes(PacketView::ConnectCallConfirm) {
                Err(e) => Err(e),
                Ok(confirm) => Ok(
                    HandshakeView {
                        out: seq![(true, connect), (true, confirm)],
                        start_snapshots: true,
                    },
                ),
            },
        },
        _ => Ok(HandshakeView { out: Seq::empty(), start_snapshots: false }),
    }
}

/// The snapshot of the tick `i`. It echoes the tick as its id and reports the
/// unit, the position (also as the pointer), the chat flag and the plans of
/// the session; it turns by fifty degrees a tick, builds, and looks at a view
/// of 1920 by 1080.
pub open spec fn snapshot_of(st: StateView, i: u32) -> PacketView {
    PacketView::ClientSnapshot {
        snapshot_id: i,
        unit_id: st.unit.id,
        dead: false,
        x: st.x,
        y: st.y,
        pointer_x: st.x,
        pointer_y: st.y,
        rotation: float_of((i % 360) * 50),
        base_rotation: Float { bits: 0 },
        x_velocity: Float { bits: 0 },
        y_velocity: Float { bits: 0 },
        mining_x: 0,
        mining_y: 0,
        boosting: false,
        shooting: false,
        chatting: st.chatting,
        building: true,
        plans: st.plans,
        view_x: Float { bits: 0 },
        view_y: Float { bits: 0 },
        view_width: float_of(1920),
        view_height: float_of(1080),
    }
}

/// What a tick of the snapshot task sends: the snapshot on the reliable
/// channel, on every fifth tick a keep-alive on the reliable channel, and on
/// every fifteenth one more as a datagram.
pub open spec fn tick_out(
    snapshot: PacketView,
    i: u32,
) -> Result<Seq<(bool, Seq<u8>)>, PacketError> {
    match packet_bytes(snapshot) {
        Err(e) => Err(e),
        Ok(bytes) => Ok(
            seq![(true, bytes)] + (if i % 5 == 0 {
                seq![(true, reliable_frame(framework_bytes(FrameworkPacket::KeepAlive)))]
            } else {
                Seq::empty()
            }) + (if i % 15 == 0 {
                seq![(false, framework_bytes(FrameworkPacket::KeepAlive))]
            } else {
                Seq::empty()
            }),
        ),
    }
}

/// What a tick of the snapshot task produced.
#[derive(Debug, Clone)]
pub struct Tick {
    /// The snapshot of the tick.
    pub snapshot: Packet,
    /// What is to be sent, in this order.
    pub out: Vec<QueuedPacket>,
}

impl Session {
    /// The session is sound when its map is.
    pub open spec fn wf(&self) -> bool {
        self.state.map.wf()
    }

    /// A session that has seen nothing yet: no player, no position, an empty
    /// map, and the content map that was kept from an earlier session, if any.
    pub fn new(username: String, content_map: Option<ContentMap>) -> (s: Session)
        ensures
            s.wf(),
            s.username == username,
            s.content_map == content_map,
            s.streams@.len() == 0,
            s.state.player_id == 0,
            s.state.unit == (Unit { unit_type: 0, id: 0 }),
            s.state.x == unknown_position(),
            s.state.y == unknown_position(),
            !s.state.chatting,
            s.state.plans@.len() == 0,
            s.state.units@.len() == 0,
            s.state.map.width == 0,
            s.state.map.height == 0,
    {
        Session {
            state: State {
                player_id: 0,
                unit: Unit { unit_type: 0, id: 0 },
                x: Float { bits: 0xBF80_0000 },
                y: Float { bits: 0xBF80_0000 },
                chatting: false,
                plans: Vec::new(),
                units: Vec::new(),
                map: TileMap::new(0, 0),
            },
            username,
            streams: Vec::new(),
            content_map,
        }
    }

    /// Answers a framework packet.
    pub fn handle_framework_packet(&self, packet: FrameworkPacket) -> (r: Result<
        Handshake,
        PacketError,
    >)
        ensures
            match handshake(self.username@, packet) {
                Ok(h) => r is Ok && r->Ok_0.deep_view() == h,
                Err(e) => r is Err && r->Err_0 == e,
            },
    {
        let mut out: Vec<QueuedPacket> = Vec::new();
        match packet {
            FrameworkPacket::RegisterTCP(id) => {
                let answer = write_framework_packet(FrameworkPacket::RegisterUDP(id));
                out.push(QueuedPacket { reliable: false, packet: answer });
                assert(out.deep_view() =~= seq![
                    (false, framework_bytes(FrameworkPacket::RegisterUDP(id))),
                ]);
                Ok(Handshake { out, start_snapshots: false })
            },
            FrameworkPacket::RegisterUDP(_) => {
                let mut color: Vec<u8> = Vec::new();
                color.push(0xff);
                color.push(0xa1);
                color.push(0x08);
                color.push(0xff);
                let connect = Packet::Connect {
                    version: 146,
                    client: "official".to_owned(),
                    name: self.username.clone(),
                    lang: "en".to_owned(),
                    usid: "USIGAAAAAAA=".to_owned(),
                    uuid: "UUIGAAAAAAA=".to_owned(),
                    mobile: false,
                    color,
                    mods: Vec::new(),
                };
                proof {
                    assert(connect.deep_view()->color =~= seq![0xffu8, 0xa1u8, 0x08u8, 0xffu8]);
                    assert(connect.deep_view()->mods =~= Seq::<Seq<char>>::empty());
                    assert(connect.deep_view() == connect_packet(self.username@));
                }
                let connect_bytes = write_packet(&connect)?;
                let confirm_bytes = write_packet(&Packet::ConnectCallConfirm)?;
                let ghost first = connect_bytes@;
                let ghost second = confirm_bytes@;
                out.push(QueuedPacket { reliable: true, packet: connect_bytes });
                out.push(QueuedPacket { reliable: true, packet: confirm_bytes });
                assert(out.deep_view() =~= seq![(true, first), (true, second)]);
                Ok(Handshake { out, start_snapshots: true })
            },
            _ => {
                assert(out.deep_view() =~= Seq::<(bool, Seq<u8>)>::empty());
                Ok(Handshake { out, start_snapshots: false })
            },
        }
    }

    /// The snapshot of the tick `i`, and what the tick sends.
    pub fn snapshot_tick(&self, i: u32) -> (r: Result<Tick, PacketError>)
        ensures
            match tick_out(snapshot_of(self.state.deep_view(), i), i) {
                Ok(out) => r is Ok && r->Ok_0.snapshot.deep_view() == snapshot_of(
                    self.state.deep_view(),
                    i,
                ) && r->Ok_0.out.deep_view() == out,
                Err(e) => r is Err && r->Err_0 == e,
            },
    {
        let zero = Float { bits: 0 };
        let turn: u32 = (i % 360) * 50;
        let plans = copy_plans(&self.state.plans);
        let snapshot = Packet::ClientSnapshot {
            snapshot_id: i,
            unit_id: self.state.unit.id,
            dead: false,
            x: self.state.x,
            y: self.state.y,
            pointer_x: self.state.x,
            pointer_y: self.state.y,
            rotation: Float::from_int(turn as i32),
            base_rotation: zero,
            x_velocity: zero,
            y_velocity: zero,
            mining_x: 0,
            mining_y: 0,
            boosting: false,
            shooting: false,
            chatting: self.state.chatting,
            building: true,
            plans,
            view_x: zero,
            view_y: zero,
            view_width: Float::from_int(1920),
            view_height: Float::from_int(1080),
        };
        assert(snapshot.deep_view() == snapshot_of(self.state.deep_view(), i));
        let mut out: Vec<QueuedPacket> = Vec::new();
        let bytes = match write_packet(&snapshot) {
            Ok(bytes) => bytes,
            Err(e) => {
                return Err(e);
            },
        };
        let ghost sent = bytes@;
        out.push(QueuedPacket { reliable: true, packet: bytes });
        assert(out.deep_view() =~= seq![(true, sent)]);
        let alive = write_framework_packet(FrameworkPacket::KeepAlive);
        if i % 5 == 0 {
            let framed = frame_reliable(&alive)?;
            let ghost before = out.deep_view();
            let ghost added = framed@;
            out.push(QueuedPacket { reliable: true, packet: framed });
            assert(out.deep_view() =~= before + seq![(true, added)]);
        } else {
            assert(out.deep_view() =~= out.deep_view() + Seq::<(bool, Seq<u8>)>::empty());
        }
        if i % 15 == 0 {
            let ghost before = out.deep_view();
            let ghost added = alive@;
            out.push(QueuedPacket { reliable: false, packet: alive });
            assert(out.deep_view() =~= before + seq![(false, added)]);
        } else {
            assert(out.deep_view() =~= out.deep_view() + Seq::<(bool, Seq<u8>)>::empty());
        }
        Ok(Tick { snapshot, out })
    }
}

/// What a client does on a packet besides changing its session: what it
/// tells its user, a packet that it hands back to be handled next, and what
/// it writes to its log.
#[derive(Debug, Clone)]
pub struct Reaction {
    pub events: Vec<ClientEvent>,
    pub requeue: Option<Packet>,
    pub notes: Vec<Note>,
}

/// What a `Reaction` holds, as plain mathematical values.
pub struct ReactionView {
    pub events: Seq<ClientEventView>,
    pub requeue: Option<PacketView>,
    pub notes: Seq<Note>,
}

impl DeepView for Reaction {
    type V = ReactionView;

    open spec fn deep_view(&self) -> ReactionView {
        ReactionView {
            events: self.events.deep_view(),
            requeue: self.requeue.deep_view(),
            notes: self.notes@,
        }
    }
}

/// A session after a packet, and the reaction to the packet.
pub struct Outcome {
    pub session: SessionView,
    pub reaction: ReactionView,
}

/// The session as it is, and no reaction.
pub open spec fn quiet(session: SessionView) -> Outcome {
    Outcome {
        session,
        reaction: ReactionView { events: Seq::empty(), requeue: None, notes: Seq::empty() },
    }
}

/// The session as it is, and one line for the log.
pub open spec fn noted(session: SessionView, note: Note) -> Outcome {
    Outcome {
        session,
        reaction: ReactionView { events: Seq::empty(), requeue: None, notes: seq![note] },
    }
}

/// The session as it is, and one event for the user.
pub open spec fn told(session: SessionView, event: ClientEventView) -> Outcome {
    Outcome {
        session,
        reaction: ReactionView { events: seq![event], requeue: None, notes: Seq::empty() },
    }
}

impl Reaction {
    fn quiet() -> (r: Reaction)
        ensures
            r.deep_view() == (ReactionView {
                events: Seq::empty(),
                requeue: None,
                notes: Seq::empty(),
            }),
    {
        let r = Reaction { events: Vec::new(), requeue: None, notes: Vec::new() };
        assert(r.events.deep_view() =~= Seq::<ClientEventView>::empty());
        r
    }

    fn note(note: Note) -> (r: Reaction)
        ensures
            r.deep_view() == (ReactionView {
                events: Seq::empty(),
                requeue: None,
                notes: seq![note],
            }),
    {
        let mut notes: Vec<Note> = Vec::new();
        notes.push(note);
        let r = Reaction { events: Vec::new(), requeue: None, notes };
        assert(r.events.deep_view() =~= Seq::<ClientEventView>::empty());
        assert(r.notes@ =~= seq![note]);
        r
    }

    fn tell(event: ClientEvent) -> (r: Reaction)
        ensures
            r.deep_view() == (ReactionView {
                events: seq![event.deep_view()],
                requeue: None,
                notes: Seq::empty(),
            }),
    {
        let ghost shown = event.deep_view();
        let mut events: Vec<ClientEvent> = Vec::new();
        events.push(event);
        let r = Reaction { events, requeue: None, notes: Vec::new() };
        assert(r.events.deep_view() =~= seq![shown]);
        r
    }
}

/// The place of the first of `streams` that travels under `id`.
pub open spec fn first_with(streams: Seq<StreamView>, id: u32) -> Option<int>
    decreases streams.len(),
{
    if streams.len() == 0 {
        None
    } else {
        match first_with(streams.drop_last(), id) {
            Some(i) => Some(i),
            None => if streams.last().id == id {
                Some(streams.len() - 1)
            } else {
                None
            },
        }
    }
}

/// What `first_with` finds in a part of the streams that starts at their
/// front, it finds in all of them.
pub proof fn lemma_first_with_prefix(streams: Seq<StreamView>, id: u32, k: int)
    requires
        0 <= k <= streams.len(),
        first_with(streams.subrange(0, k), id) is Some,
    ensures
        first_with(streams, id) == first_with(streams.subrange(0, k), id),
    decreases streams.len(),
{
    if k < streams.len() {
        assert(streams.drop_last().subrange(0, k) =~= streams.subrange(0, k));
        lemma_first_with_prefix(streams.drop_last(), id, k);
    } else {
        assert(streams.subrange(0, k) =~= streams);
    }
}

/// The streams with `st` in the place of the stream that travels under its
/// id, or behind them all where no stream does.
pub open spec fn put_stream(streams: Seq<StreamView>, st: StreamView) -> Seq<StreamView> {
    match first_with(streams, st.id) {
        Some(i) => streams.update(i, st),
        None => streams.push(st),
    }
}

fn find_stream(streams: &Vec<StreamBuilder>, id: u32) -> (r: Option<usize>)
    ensures
        r matches Some(i) ==> first_with(streams.deep_view(), id) == Some(i as int) && i
            < streams@.len() && streams@[i as int].id == id,
        r is None ==> first_with(streams.deep_view(), id) is None,
{
    let ghost all = streams.deep_view();
    let mut i: usize = 0;
    assert(all.subrange(0, 0) =~= Seq::<StreamView>::empty());
    while i < streams.len()
        invariant
            i <= streams.len(),
            all == streams.deep_view(),
            first_with(all.subrange(0, i as int), id) is None,
        decreases streams.len() - i,
    {
        proof {
            assert(all.subrange(0, i + 1).drop_last() =~= all.subrange(0, i as int));
            assert(all.subrange(0, i + 1).last() == streams@[i as int].deep_view());
        }
        if streams[i].id == id {
            proof {
                lemma_first_with_prefix(all, id, i + 1);
            }
            return Some(i);
        }
        i += 1;
    }
    assert(all.subrange(0, i as int) =~= all);
    None
}

/// What a client does when a stream begins: it opens the stream, in the
/// place of one that was open under the same id.
pub open spec fn after_stream_begin(
    s: SessionView,
    id: u32,
    stream_type: u8,
    total: u32,
) -> Outcome {
    quiet(
        SessionView {
            streams: put_stream(
                s.streams,
                StreamView { id, total, stream_type, data: Seq::empty() },
            ),
            ..s
        },
    )
}

/// What a client does on a chunk. A chunk for a stream that is not open is
/// dropped. Else the chunk goes behind what the stream holds; and once the
/// stream holds all its bytes it is closed, and its bytes are decoded as the
/// body of the packet that it announced, which is handed back to be handled.
pub open spec fn after_stream_chunk(
    s: SessionView,
    id: u32,
    data: Seq<u8>,
    tables: TablesView,
) -> Outcome {
    match first_with(s.streams, id) {
        None => noted(s, Note::StreamNotFound(id)),
        Some(k) => {
            let st = s.streams[k].with_chunk(data);
            if !st.done() {
                quiet(SessionView { streams: s.streams.update(k, st), ..s })
            } else {
                let closed = SessionView { streams: s.streams.remove(k), ..s };
                match parse_regular(st.stream_type, st.data, 0, s.content_map, tables) {
                    Err(e) => noted(closed, Note::StreamFailed(id, e)),
                    Ok(p) => Outcome {
                        session: closed,
                        reaction: ReactionView {
                            events: Seq::empty(),
                            requeue: Some(p),
                            notes: Seq::empty(),
                        },
                    },
                }
            }
        },
    }
}

/// The place on the map of the tile `tile`, if the map has it.
pub open spec fn tile_place(map: TileMapView, tile: Tile) -> Option<int> {
    if tile.x < 0 || tile.y < 0 {
        None
    } else {
        cell_index(map.width, map.height, tile.x as u32, tile.y as u32)
    }
}

/// The session with its map changed at one cell.
pub open spec fn with_cell(s: SessionView, k: int, tile: MapTileView) -> SessionView {
    SessionView {
        state: StateView { map: s.state.map.with_tile(Some(k), tile), ..s.state },
        ..s
    }
}

/// The block entity that stands on a tile while its block is being built.
pub open spec fn placeholder(team: u8, rotation: u32) -> BlockView {
    BlockView {
        name: "Construct"@,
        block_type: "Construct"@,
        base: BaseBlockView {
            health: Float { bits: 0x3F80_0000 },
            rotation: (rotation % 256) as u8,
            version: 0,
            legacy: false,
            on: None,
            team,
            module_bitmask: 0,
            items: None,
            liquids: None,
            power: None,
        },
        specific: None,
    }
}

/// What a client does when a block is begun at `(x, y)`: the tile gets the
/// block's id and a placeholder with the team and the rotation. A place
/// outside the map is logged and passed over.
pub open spec fn after_begin_place(
    s: SessionView,
    x: u32,
    y: u32,
    rotation: u32,
    result: u16,
    team: u8,
) -> Outcome {
    match cell_index(s.state.map.width, s.state.map.height, x, y) {
        None => noted(s, Note::PlaceNotInMap(x, y)),
        Some(k) => quiet(
            with_cell(
                s,
                k,
                MapTileView {
                    block_id: Some(signed16(result as int) as i16),
                    block: Some(placeholder(team, rotation)),
                    ..s.state.map.tiles[k]
                },
            ),
        ),
    }
}

/// What a client does when a block is finished on `tile`: the tile gets the
/// block's id, and the entity on it the name and the type that the id
/// resolves to. A tile outside the map is logged and passed over; so is a
/// missing content map and an id that does not resolve, once the id is on
/// the tile. A tile without an entity is logged, and the user is told of the
/// change all the same.
pub open spec fn after_construct_finish(
    s: SessionView,
    tile: Tile,
    block: i16,
    tables: TablesView,
) -> Outcome {
    match tile_place(s.state.map, tile) {
        None => noted(s, Note::TileNotInMap(tile)),
        Some(k) => {
            let marked = MapTileView { block_id: Some(block), ..s.state.map.tiles[k] };
            match s.content_map {
                None => noted(with_cell(s, k, marked), Note::ContentMapMissing),
                Some(c) => match resolve(c, tables, block) {
                    Err(e) => noted(with_cell(s, k, marked), Note::UnknownBlock(block, e)),
                    Ok((name, t)) => match marked.block {
                        None => Outcome {
                            session: with_cell(s, k, marked),
                            reaction: ReactionView {
                                events: seq![ClientEventView::BlockChanged { tile }],
                                requeue: None,
                                notes: seq![Note::PlaceholderMissing(tile)],
                            },
                        },
                        Some(b) => told(
                            with_cell(
                                s,
                                k,
                                MapTileView {
                                    block: Some(BlockView { name, block_type: t, ..b }),
                                    ..marked
                                },
                            ),
                            ClientEventView::BlockChanged { tile },
                        ),
                    },
                },
            }
        },
    }
}

/// What a client does when a block is taken off `tile`: the tile loses its
/// block id and its entity, and the user is told.
pub open spec fn after_deconstruct_finish(s: SessionView, tile: Tile) -> Outcome {
    match tile_place(s.state.map, tile) {
        None => noted(s, Note::TileNotInMap(tile)),
        Some(k) => told(
            with_cell(
                s,
                k,
                MapTileView { block_id: None, block: None, ..s.state.map.tiles[k] },
            ),
            ClientEventView::BlockChanged { tile },
        ),
    }
}

/// What a client does when the block on `tile` is turned: its entity gets
/// the rotation, and the user is told. A tile outside the map or without an
/// entity is logged and passed over.
pub open spec fn after_rotate(s: SessionView, tile: Tile, rotation: u8) -> Outcome {
    match tile_place(s.state.map, tile) {
        None => noted(s, Note::TileNotInMap(tile)),
        Some(k) => match s.state.map.tiles[k].block {
            None => noted(s, Note::PlaceholderMissing(tile)),
            Some(b) => told(
                with_cell(
                    s,
                    k,
                    MapTileView {
                        block: Some(
                            BlockView { base: BaseBlockView { rotation, ..b.base }, ..b },
                        ),
                        ..s.state.map.tiles[k]
                    },
                ),
                ClientEventView::BlockChanged { tile },
            ),
        },
    }
}

/// What a client does when an entity appears: where it is the player, the
/// session's position becomes the tile's, which is eight units wide.
pub open spec fn after_spawn(s: SessionView, tile_x: i16, tile_y: i16, entity: u32) -> Outcome {
    if entity == s.state.player_id {
        quiet(
            SessionView {
                state: StateView {
                    x: float_of(tile_x * 8),
                    y: float_of(tile_y * 8),
                    ..s.state
                },
                ..s
            },
        )
    } else {
        quiet(s)
    }
}

/// The entity that a snapshot holds under `id`: the last, where there are
/// several.
pub open spec fn last_unit(units: Seq<(u32, FullUnitView)>, id: u32) -> Option<FullUnitView>
    decreases units.len(),
{
    if units.len() == 0 {
        None
    } else if units.last().0 == id {
        Some(units.last().1)
    } else {
        last_unit(units.drop_last(), id)
    }
}

/// The state with the player's unit handle taken from the entities that it
/// holds, and with the position of the player where none was known.
pub open spec fn refreshed(st: StateView) -> StateView {
    match last_unit(st.units, st.player_id) {
        Some(FullUnitView::Player { unit, x, y, .. }) => StateView {
            unit,
            x: if st.x == unknown_position() {
                x
            } else {
                st.x
            },
            y: if st.y == unknown_position() {
                y
            } else {
                st.y
            },
            ..st
        },
        _ => st,
    }
}

/// What a client does on an entity snapshot: it refreshes what it knows of
/// the player from the entities that it holds, puts the entities of the
/// snapshot in their place, all of them, and tells the user.
pub open spec fn after_entity_snapshot(s: SessionView, units: Seq<(u32, FullUnitView)>) -> Outcome {
    told(
        SessionView { state: StateView { units, ..refreshed(s.state) }, ..s },
        ClientEventView::UnitSnapshot,
    )
}

/// What a client does when the world arrives: it takes the player's id, the
/// map and the content map, and tells the user.
pub open spec fn after_world_stream(
    s: SessionView,
    id: u32,
    content: ContentView,
    map: TileMapView,
) -> Outcome {
    told(
        SessionView {
            state: StateView { player_id: id, map, ..s.state },
            content_map: Some(content),
            ..s
        },
        ClientEventView::MapLoaded,
    )
}

impl Session {
    fn on_stream_begin(&mut self, id: u32, stream_type: u8, total: u32) -> (r: Reaction)
        requires
            old(self).wf(),
        ensures
            final(self).wf(),
            (Outcome { session: final(self).deep_view(), reaction: r.deep_view() })
                == after_stream_begin(old(self).deep_view(), id, stream_type, total),
    {
        let stream = StreamBuilder::new(id, stream_type, total);
        let ghost shown = stream.deep_view();
        let ghost before = self.streams.deep_view();
        match find_stream(&self.streams, id) {
            Some(k) => {
                self.streams[k] = stream;
                assert(self.streams.deep_view() =~= before.update(k as int, shown));
            },
            None => {
                self.streams.push(stream);
                assert(self.streams.deep_view() =~= before.push(shown));
            },
        }
        Reaction::quiet()
    }

    fn on_stream_chunk(&mut self, id: u32, data: Vec<u8>, tables: &Tables) -> (r: Reaction)
        requires
            old(self).wf(),
        ensures
            final(self).wf(),
            (Outcome { session: final(self).deep_view(), reaction: r.deep_view() })
                == after_stream_chunk(old(self).deep_view(), id, data@, tables.deep_view()),
            r.requeue matches Some(Packet::WorldStream { map, .. }) ==> map.wf(),
    {
        let ghost before = self.streams.deep_view();
        let k = match find_stream(&self.streams, id) {
            None => {
                return Reaction::note(Note::StreamNotFound(id));
            },
            Some(k) => k,
        };
        let ghost chunk = data@;
        self.streams[k].add(data);
        let ghost fed = before[k as int].with_chunk(chunk);
        assert(self.streams.deep_view() =~= before.update(k as int, fed));
        if !self.streams[k].is_done() {
            return Reaction::quiet();
        }
        let stream = self.streams.remove(k);
        assert(self.streams.deep_view() =~= before.remove(k as int));
        match stream.build(&self.content_map, tables) {
            Err(e) => Reaction::note(Note::StreamFailed(id, e)),
            Ok(packet) => {
                let r = Reaction { events: Vec::new(), requeue: Some(packet), notes: Vec::new() };
                assert(r.events.deep_view() =~= Seq::<ClientEventView>::empty());
                r
            },
        }
    }

    fn on_world_stream(&mut self, id: u32, content: ContentMap, map: TileMap) -> (r: Reaction)
        requires
            old(self).wf(),
            map.wf(),
        ensures
            final(self).wf(),
            (Outcome { session: final(self).deep_view(), reaction: r.deep_view() })
                == after_world_stream(
                old(self).deep_view(),
                id,
                content.deep_view(),
                map.deep_view(),
            ),
    {
        self.state.player_id = id;
        self.state.map = map;
        self.content_map = Some(content);
        Reaction::tell(ClientEvent::MapLoaded)
    }

    fn on_begin_place(&mut self, x: u32, y: u32, rotation: u32, result: u16, team: u8) -> (r:
        Reaction)
        requires
            old(self).wf(),
        ensures
            final(self).wf(),
            (Outcome { session: final(self).deep_view(), reaction: r.deep_view() })
                == after_begin_place(old(self).deep_view(), x, y, rotation, result, team),
    {
        let k = match self.state.map.find(x, y) {
            None => {
                return Reaction::note(Note::PlaceNotInMap(x, y));
            },
            Some(k) => k,
        };
        let block = Block {
            block_type: "Construct".to_owned(),
            name: "Construct".to_owned(),
            base: BaseBlockData {
                team,
                rotation: (rotation % 256) as u8,
                version: 0,
                legacy: false,
                items: None,
                liquids: None,
                power: None,
                on: None,
                module_bitmask: 0,
                health: Float { bits: 0x3F80_0000 },
            },
            specific: None,
        };
        assert(block.deep_view() == placeholder(team, rotation));
        self.state.map.put_block_id(k, Some(to_signed16(result)));
        self.state.map.put_entity(k, Some(block));
        assert(self.deep_view().state.map.tiles =~= old(self).deep_view().state.map.tiles.update(
            k as int,
            MapTileView {
                block_id: Some(signed16(result as int) as i16),
                block: Some(placeholder(team, rotation)),
                ..old(self).deep_view().state.map.tiles[k as int]
            },
        ));
        Reaction::quiet()
    }

    fn find_tile(&self, tile: Tile) -> (r: Option<usize>)
        requires
            self.wf(),
        ensures
            r matches Some(i) ==> tile_place(self.deep_view().state.map, tile) == Some(i as int)
                && i < self.state.map.tiles@.len(),
            r is None ==> tile_place(self.deep_view().state.map, tile) is None,
    {
        if tile.x < 0 || tile.y < 0 {
            None
        } else {
            self.state.map.find(tile.x as u32, tile.y as u32)
        }
    }

    fn on_construct_finish(&mut self, tile: Tile, block: i16, tables: &Tables) -> (r: Reaction)
        requires
            old(self).wf(),
        ensures
            final(self).wf(),
            (Outcome { session: final(self).deep_view(), reaction: r.deep_view() })
                == after_construct_finish(old(self).deep_view(), tile, block, tables.deep_view()),
    {
        let k = match self.find_tile(tile) {
            None => {
                return Reaction::note(Note::TileNotInMap(tile));
            },
            Some(k) => k,
        };
        self.state.map.put_block_id(k, Some(block));
        let resolved = match &self.content_map {
            None => {
                return Reaction::note(Note::ContentMapMissing);
            },
            Some(content) => resolve_block(content, tables, block),
        };
        let (name, block_type) = match resolved {
            Err(e) => {
                return Reaction::note(Note::UnknownBlock(block, e));
            },
            Ok(pair) => pair,
        };
        let missing = self.state.map.tiles[k].block.is_none();
        self.state.map.rename_entity(k, name, block_type);
        let mut r = Reaction::tell(ClientEvent::BlockChanged { tile });
        if missing {
            r.notes.push(Note::PlaceholderMissing(tile));
            assert(r.notes@ =~= seq![Note::PlaceholderMissing(tile)]);
        }
        proof {
            let s = old(self).deep_view();
            let marked = MapTileView { block_id: Some(block), ..s.state.map.tiles[k as int] };
            assert(deep(old(self).state.map.tiles@)[k as int] == old(
                self,
            ).state.map.tiles@[k as int].deep_view());
            if !missing {
                assert(self.deep_view().state.map.tiles =~= s.state.map.tiles.update(
                    k as int,
                    MapTileView {
                        block: Some(
                            BlockView {
                                name: name@,
                                block_type: block_type@,
                                ..marked.block->Some_0
                            },
                        ),
                        ..marked
                    },
                ));
            } else {
                assert(self.deep_view().state.map.tiles =~= s.state.map.tiles.update(
                    k as int,
                    marked,
                ));
            }
        }
        r
    }

    fn on_deconstruct_finish(&mut self, tile: Tile) -> (r: Reaction)
        requires
            old(self).wf(),
        ensures
            final(self).wf(),
            (Outcome { session: final(self).deep_view(), reaction: r.deep_view() })
                == after_deconstruct_finish(old(self).deep_view(), tile),
    {
        let k = match self.find_tile(tile) {
            None => {
                return Reaction::note(Note::TileNotInMap(tile));
            },
            Some(k) => k,
        };
        self.state.map.put_block_id(k, None);
        self.state.map.put_entity(k, None);
        assert(self.deep_view().state.map.tiles =~= old(self).deep_view().state.map.tiles.update(
            k as int,
            MapTileView {
                block_id: None,
                block: None,
                ..old(self).deep_view().state.map.tiles[k as int]
            },
        ));
        Reaction::tell(ClientEvent::BlockChanged { tile })
    }

    fn on_rotate(&mut self, tile: Tile, rotation: u8) -> (r: Reaction)
        requires
            old(self).wf(),
        ensures
            final(self).wf(),
            (Outcome { session: final(self).deep_view(), reaction: r.deep_view() })
                == after_rotate(old(self).deep_view(), tile, rotation),
    {
        let k = match self.find_tile(tile) {
            None => {
                return Reaction::note(Note::TileNotInMap(tile));
            },
            Some(k) => k,
        };
        assert(deep(self.state.map.tiles@)[k as int]
            == self.state.map.tiles@[k as int].deep_view());
        if self.state.map.tiles[k].block.is_none() {
            return Reaction::note(Note::PlaceholderMissing(tile));
        }
        self.state.map.rotate_entity(k, rotation);
        Reaction::tell(ClientEvent::BlockChanged { tile })
    }

    fn on_spawn(&mut self, tile_x: i16, tile_y: i16, entity: u32) -> (r: Reaction)
        requires
            old(self).wf(),
        ensures
            final(self).wf(),
            (Outcome { session: final(self).deep_view(), reaction: r.deep_view() })
                == after_spawn(old(self).deep_view(), tile_x, tile_y, entity),
    {
        if self.state.player_id == entity {
            self.state.x = Float::from_int(tile_x as i32 * 8);
            self.state.y = Float::from_int(tile_y as i32 * 8);
        }
        Reaction::quiet()
    }

    fn find_unit(&self, id: u32) -> (r: Option<usize>)
        ensures
            r matches Some(i) ==> i < self.state.units@.len() && last_unit(
                self.state.units.deep_view(),
                id,
            ) == Some(self.state.units@[i as int].unit.deep_view()),
            r is None ==> last_unit(self.state.units.deep_view(), id) is None,
    {
        let ghost all = self.state.units.deep_view();
        let mut i: usize = self.state.units.len();
        assert(all.subrange(0, i as int) =~= all);
        while i > 0
            invariant
                i <= self.state.units@.len(),
                all == self.state.units.deep_view(),
                last_unit(all, id) == last_unit(all.subrange(0, i as int), id),
            decreases i,
        {
            i -= 1;
            proof {
                assert(all.subrange(0, i + 1).drop_last() =~= all.subrange(0, i as int));
                assert(all.subrange(0, i + 1).last() == self.state.units@[i as int].deep_view());
            }
            if self.state.units[i].id == id {
                return Some(i);
            }
        }
        None
    }

    fn on_entity_snapshot(&mut self, units: Vec<UnitEntry>) -> (r: Reaction)
        requires
            old(self).wf(),
        ensures
            final(self).wf(),
            (Outcome { session: final(self).deep_view(), reaction: r.deep_view() })
                == after_entity_snapshot(old(self).deep_view(), units.deep_view()),
    {
        match self.find_unit(self.state.player_id) {
            Some(k) => {
                let seen = match &self.state.units[k].unit {
                    FullUnit::Player { unit, x, y, .. } => Some((*unit, *x, *y)),
                    _ => None,
                };
                match seen {
                    Some((unit, x, y)) => {
                        if self.state.x.bits == 0xBF80_0000 {
                            self.state.x = x;
                        }
                        if self.state.y.bits == 0xBF80_0000 {
                            self.state.y = y;
                        }
                        self.state.unit = unit;
                    },
                    None => {},
                }
            },
            None => {},
        }
        self.state.units = units;
        Reaction::tell(ClientEvent::UnitSnapshot)
    }
}

/// Where the handling of a block snapshot stands: the cells of the map, and
/// what there is to tell and to log so far.
pub struct SnapshotRun {
    pub tiles: Seq<MapTileView>,
    pub events: Seq<ClientEventView>,
    pub notes: Seq<Note>,
}

impl SnapshotRun {
    /// The same, with one more line for the log.
    pub open spec fn noting(self, note: Note) -> SnapshotRun {
        SnapshotRun { notes: self.notes.push(note), ..self }
    }
}

/// The handling of `n` entries of a block snapshot that stand one behind the
/// other from `pos`. An entry names a tile and a block id, and holds the
/// block's entity, which is decoded with the version of the entity that the
/// tile has, or with version 0. The entity goes on the tile, and the user is
/// told. A block id other than the tile's is logged, and the entry still
/// counts. The handling ends early, with a line in the log, where the bytes
/// end, where the tile is not on the map, where no content map is known, and
/// where the entity does not decode.
pub open spec fn snapshot_run(
    d: Seq<u8>,
    pos: int,
    n: nat,
    run: SnapshotRun,
    width: u32,
    height: u32,
    content: Option<ContentView>,
    tables: TablesView,
) -> SnapshotRun
    decreases n,
{
    if n == 0 {
        run
    } else if pos + 6 > d.len() {
        run.noting(Note::SnapshotCut(PacketError::UnexpectedEnd))
    } else {
        let tile = tile_at(d, pos);
        let id = i16_at(d, pos + 4);
        match tile_place(TileMapView { width, height, tiles: run.tiles }, tile) {
            None => run.noting(Note::TileNotInMap(tile)),
            Some(k) => {
                let checked = if run.tiles[k].block_id != Some(id) {
                    run.noting(Note::BlockIdMismatch(tile))
                } else {
                    run
                };
                let version = match run.tiles[k].block {
                    Some(b) => b.base.version,
                    None => 0,
                };
                match content {
                    None => checked.noting(Note::ContentMapMissing),
                    Some(c) => match parse_named_block(d, pos + 6, id, version, c, tables) {
                        Err(e) => checked.noting(Note::SnapshotCut(e)),
                        Ok((block, next)) => snapshot_run(
                            d,
                            next,
                            (n - 1) as nat,
                            SnapshotRun {
                                tiles: checked.tiles.update(
                                    k,
                                    MapTileView { block: Some(block), ..checked.tiles[k] },
                                ),
                                events: checked.events.push(
                                    ClientEventView::BlockChanged { tile },
                                ),
                                notes: checked.notes,
                            },
                            width,
                            height,
                            content,
                            tables,
                        ),
                    },
                }
            },
        }
    }
}

/// What a client does on a block snapshot of `amount` entries in `data`.
pub open spec fn after_block_snapshot(
    s: SessionView,
    amount: i16,
    data: Seq<u8>,
    tables: TablesView,
) -> Outcome {
    let run = snapshot_run(
        data,
        0,
        crate::type_io::count_of(amount as int),
        SnapshotRun { tiles: s.state.map.tiles, events: Seq::empty(), notes: Seq::empty() },
        s.state.map.width,
        s.state.map.height,
        s.content_map,
        tables,
    );
    Outcome {
        session: SessionView {
            state: StateView {
                map: TileMapView {
                    width: s.state.map.width,
                    height: s.state.map.height,
                    tiles: run.tiles,
                },
                ..s.state
            },
            ..s
        },
        reaction: ReactionView { events: run.events, requeue: None, notes: run.notes },
    }
}

/// What a client does on a packet: how its session changes, and how it
/// reacts. Packets that are not named here change nothing and cause nothing.
pub open spec fn react(s: SessionView, packet: PacketView, tables: TablesView) -> Outcome {
    match packet {
        PacketView::StreamBegin { id, total, stream_type } => after_stream_begin(
            s,
            id,
            stream_type,
            total,
        ),
        PacketView::StreamChunk { id, data } => after_stream_chunk(s, id, data, tables),
        PacketView::WorldStream { id, content_map, map, .. } => after_world_stream(
            s,
            id,
            content_map,
            map,
        ),
        PacketView::BeginPlace { x, y, rotation, result, team, .. } => after_begin_place(
            s,
            x,
            y,
            rotation,
            result,
            team,
        ),
        PacketView::ConstructFinish { tile, block, .. } => after_construct_finish(
            s,
            tile,
            block,
            tables,
        ),
        PacketView::DeconstructFinish { tile } => after_deconstruct_finish(s, tile),
        PacketView::BlockSnapshot { amount, data } => after_block_snapshot(s, amount, data, tables),
        PacketView::EntitySnapshot { units } => after_entity_snapshot(s, units),
        PacketView::KickCall { .. } => noted(s, Note::KickedText),
        PacketView::KickCall2 { reason } => noted(s, Note::Kicked(reason)),
        PacketView::SpawnCall { tile_x, tile_y, entity } => after_spawn(s, tile_x, tile_y, entity),
        PacketView::RotateBlockCall { tile, rotation, .. } => after_rotate(s, tile, rotation),
        PacketView::SendMessageCall2 { message, unformatted, sender } => told(
            s,
            ClientEventView::ChatMessage { message, unformatted, sender },
        ),
        PacketView::Other(id) => noted(s, Note::Unhandled(id)),
        _ => quiet(s),
    }
}

/// A packet is sound when the map that it carries, if it carries one, is.
pub open spec fn packet_wf(packet: &Packet) -> bool {
    packet matches Packet::WorldStream { map, .. } ==> map.wf()
}

impl Session {
    fn on_block_snapshot(&mut self, amount: i16, data: Vec<u8>, tables: &Tables) -> (r: Reaction)
        requires
            old(self).wf(),
        ensures
            final(self).wf(),
            (Outcome { session: final(self).deep_view(), reaction: r.deep_view() })
                == after_block_snapshot(old(self).deep_view(), amount, data@, tables.deep_view()),
    {
        let count: usize = if amount < 0 {
            0
        } else {
            amount as usize
        };
        let mut reader = Reader::new(data);
        let ghost d = reader.data();
        let ghost width = self.state.map.width;
        let ghost height = self.state.map.height;
        let ghost content = self.content_map.deep_view();
        let ghost start = SnapshotRun {
            tiles: self.deep_view().state.map.tiles,
            events: Seq::empty(),
            notes: Seq::empty(),
        };
        let ghost goal = snapshot_run(
            d,
            0,
            count as nat,
            start,
            width,
            height,
            content,
            tables.deep_view(),
        );
        let mut events: Vec<ClientEvent> = Vec::new();
        let mut notes: Vec<Note> = Vec::new();
        let mut i: usize = 0;
        assert(events.deep_view() =~= Seq::<ClientEventView>::empty());
        while i < count
            invariant_except_break
                goal == snapshot_run(
                    d,
                    reader.position(),
                    (count - i) as nat,
                    SnapshotRun {
                        tiles: self.deep_view().state.map.tiles,
                        events: events.deep_view(),
                        notes: notes@,
                    },
                    width,
                    height,
                    content,
                    tables.deep_view(),
                ),
            invariant
                i <= count,
                self.wf(),
                reader.wf(),
                reader.data() == d,
                self.state.map.width == width,
                self.state.map.height == height,
                self.content_map.deep_view() == content,
                self.state.player_id == old(self).state.player_id,
                self.state.unit == old(self).state.unit,
                self.state.x == old(self).state.x,
                self.state.y == old(self).state.y,
                self.state.chatting == old(self).state.chatting,
                self.state.plans == old(self).state.plans,
                self.state.units == old(self).state.units,
                self.username == old(self).username,
                self.streams == old(self).streams,
                self.content_map == old(self).content_map,
            ensures
                goal == (SnapshotRun {
                    tiles: self.deep_view().state.map.tiles,
                    events: events.deep_view(),
                    notes: notes@,
                }),
            decreases count - i,
        {
            if reader.remaining() < 6 {
                notes.push(Note::SnapshotCut(PacketError::UnexpectedEnd));
                break ;
            }
            let tile = read_tile(&mut reader);
            let block_id = reader.short();
            let k = match self.find_tile(tile) {
                None => {
                    notes.push(Note::TileNotInMap(tile));
                    break ;
                },
                Some(k) => k,
            };
            assert(deep(self.state.map.tiles@)[k as int]
                == self.state.map.tiles@[k as int].deep_view());
            let same = match self.state.map.tiles[k].block_id {
                Some(found) => found == block_id,
                None => false,
            };
            if !same {
                notes.push(Note::BlockIdMismatch(tile));
            }
            let version: u8 = match &self.state.map.tiles[k].block {
                Some(b) => b.base.version,
                None => 0,
            };
            let decoded = match &self.content_map {
                None => {
                    notes.push(Note::ContentMapMissing);
                    break ;
                },
                Some(content_map) => read_named_block(
                    &mut reader,
                    block_id,
                    version,
                    content_map,
                    tables,
                ),
            };
            let block = match decoded {
                Err(e) => {
                    notes.push(Note::SnapshotCut(e));
                    break ;
                },
                Ok(block) => block,
            };
            let ghost before = events.deep_view();
            self.state.map.put_entity(k, Some(block));
            events.push(ClientEvent::BlockChanged { tile });
            assert(events.deep_view() =~= before.push(ClientEventView::BlockChanged { tile }));
            i += 1;
        }
        let r = Reaction { events, requeue: None, notes };
        proof {
            let run = SnapshotRun {
                tiles: self.deep_view().state.map.tiles,
                events: r.events.deep_view(),
                notes: r.notes@,
            };
            assert(goal == run);
            assert(d == data@);
            assert(count == crate::type_io::count_of(amount as int));
            assert(start.tiles == old(self).deep_view().state.map.tiles);
            assert(self.deep_view().state.plans == old(self).deep_view().state.plans);
            assert(self.deep_view().state.units == old(self).deep_view().state.units);
            assert(self.deep_view().streams == old(self).deep_view().streams);
            assert(self.deep_view().username == old(self).deep_view().username);
            assert(self.deep_view().content_map == old(self).deep_view().content_map);
            assert(self.deep_view().state.map == (TileMapView {
                width,
                height,
                tiles: run.tiles,
            }));
        }
        r
    }

    /// Handles one packet: the session changes as the packet asks, and the
    /// reaction says what the user is told, what is handed back to be handled
    /// next, and what goes to the log.
    pub fn handle_regular_packet(&mut self, packet: Packet, tables: &Tables) -> (r: Reaction)
        requires
            old(self).wf(),
            packet_wf(&packet),
        ensures
            final(self).wf(),
            (Outcome { session: final(self).deep_view(), reaction: r.deep_view() }) == react(
                old(self).deep_view(),
                packet.deep_view(),
                tables.deep_view(),
            ),
            r.requeue matches Some(p) ==> packet_wf(&p),
    {
        match packet {
            Packet::StreamBegin { id, total, stream_type } => self.on_stream_begin(
                id,
                stream_type,
                total,
            ),
            Packet::StreamChunk { id, data } => self.on_stream_chunk(id, data, tables),
            Packet::WorldStream { id, content_map, map, .. } => self.on_world_stream(
                id,
                content_map,
                map,
            ),
            Packet::BeginPlace { x, y, rotation, result, team, .. } => self.on_begin_place(
                x,
                y,
                rotation,
                result,
                team,
            ),
            Packet::ConstructFinish { tile, block, .. } => self.on_construct_finish(
                tile,
                block,
                tables,
            ),
            Packet::DeconstructFinish { tile } => self.on_deconstruct_finish(tile),
            Packet::BlockSnapshot { amount, data } => self.on_block_snapshot(amount, data, tables),
            Packet::EntitySnapshot { units } => self.on_entity_snapshot(units),
            Packet::KickCall { .. } => Reaction::note(Note::KickedText),
            Packet::KickCall2 { reason } => Reaction::note(Note::Kicked(reason)),
            Packet::SpawnCall { tile_x, tile_y, entity } => self.on_spawn(tile_x, tile_y, entity),
            Packet::RotateBlockCall { tile, rotation, .. } => self.on_rotate(tile, rotation),
            Packet::SendMessageCall2 { message, unformatted, sender } => Reaction::tell(
                ClientEvent::ChatMessage { message, unformatted, sender },
            ),
            Packet::Other(id) => Reaction::note(Note::Unhandled(id)),
            _ => Reaction::quiet(),
        }
    }
}

} // verus!
