//! Block entities: the base state that every block carries, and the state of
//! each kind of block type, laid out by version.

use crate::arc_types::unsigned32;
use crate::arc_types::{unpacked, Point2};
use crate::packet::PacketError;
use crate::tables::{
    begins_with, lemma_table_lookup, lookup, str_begins_with, str_eq, BlockParam, ContentMap,
    ContentView, Table, Tables, TablesView,
};
use crate::type_io::{
    bool_at, count_of, decoded, i16_at, lemma_repeat_fails, parse_object, prefixed_string_at,
    read_object_boxed, read_prefixed_string, read_string, repeat, string_at, u32_at, u64_at, Double,
    Float, Parsed, Reader, Tile,
};
use crate::unit_io::{parse_plans_queue, read_plans_queue, Payload, Plan, PlanView};
use std::collections::HashMap;
use vstd::prelude::*;

verus! {

broadcast use vstd::std_specs::hash::group_hash_axioms;

/// Whether bit `bit` of `mask` is set.
pub open spec fn has_bit(mask: u8, bit: nat) -> bool {
    if bit == 0 {
        mask % 2 == 1
    } else if bit == 1 {
        (mask / 2) % 2 == 1
    } else {
        (mask / 4) % 2 == 1
    }
}

/// The module bitmask of a block without an extended header: bit 0 for
/// items, bit 1 for power, bit 2 for liquids, and bit 3 always.
pub open spec fn bitmask_of(param: BlockParam) -> u8 {
    ((if param.has_items {
        1int
    } else {
        0int
    }) + (if param.has_power {
        2int
    } else {
        0int
    }) + (if param.has_liquids {
        4int
    } else {
        0int
    }) + 8) as u8
}

/// The module bitmask that the table of block parameters gives to the block
/// named `id`: zero where the table does not know the block.
pub open spec fn default_bitmask(params: Seq<(Seq<char>, BlockParam)>, id: Seq<char>) -> u8 {
    match lookup(params, id) {
        Some(param) => bitmask_of(param),
        None => 0,
    }
}

pub fn get_module_bitmask(id: &str, block_params: &Table<BlockParam>) -> (mask: u8)
    ensures
        mask == default_bitmask(block_params.deep_view(), id@),
{
    proof {
        lemma_table_lookup(block_params, id@);
    }
    match block_params.find(id) {
        Some(i) => {
            let param = &block_params.entries[i].value;
            let a: u8 = if param.has_items {
                1
            } else {
                0
            };
            let b: u8 = if param.has_power {
                2
            } else {
                0
            };
            let c: u8 = if param.has_liquids {
                4
            } else {
                0
            };
            a + b + c + 8
        },
        None => 0,
    }
}

/// The width of one entry of an item or liquid record: the id takes one byte
/// in a legacy record and two otherwise, the amount four.
pub open spec fn stock_width(legacy: bool) -> int {
    if legacy {
        5
    } else {
        6
    }
}

/// The id of the entry of an item or liquid record that starts at `pos`.
pub open spec fn stock_id(s: Seq<u8>, pos: int, legacy: bool) -> i16 {
    if legacy {
        s[pos] as i16
    } else {
        i16_at(s, pos)
    }
}

/// The first `n` entries of an item or liquid record that starts at `pos`,
/// as a map from id to amount: a later entry replaces an earlier one.
pub open spec fn stock_at(s: Seq<u8>, pos: int, n: nat, legacy: bool) -> Map<i16, u32>
    decreases n,
{
    if n == 0 {
        Map::empty()
    } else {
        let at = pos + (n - 1) * stock_width(legacy);
        stock_at(s, pos, (n - 1) as nat, legacy).insert(
            stock_id(s, at, legacy),
            u32_at(s, at + stock_width(legacy) - 4),
        )
    }
}

/// The width of the count of an item or liquid record.
pub open spec fn stock_count_width(legacy: bool) -> int {
    if legacy {
        1
    } else {
        2
    }
}

/// The count of an item or liquid record that starts at `pos`.
pub open spec fn stock_count(s: Seq<u8>, pos: int, legacy: bool) -> nat {
    if legacy {
        s[pos] as nat
    } else {
        count_of(i16_at(s, pos) as int)
    }
}

/// The item or liquid record that starts at `pos`: a count, then that many
/// pairs of id and amount.
pub open spec fn parse_stock(s: Seq<u8>, pos: int, legacy: bool) -> Parsed<Map<i16, u32>> {
    let start = pos + stock_count_width(legacy);
    if start > s.len() {
        Err(PacketError::UnexpectedEnd)
    } else if start + stock_count(s, pos, legacy) * stock_width(legacy) > s.len() {
        Err(PacketError::UnexpectedEnd)
    } else {
        Ok(
            (
                stock_at(s, start, stock_count(s, pos, legacy), legacy),
                start + stock_count(s, pos, legacy) * stock_width(legacy),
            ),
        )
    }
}

/// What a decoder of a map returned and where it left the cursor, held
/// against what the bytes say.
pub open spec fn decoded_map(
    r: Result<HashMap<i16, u32>, PacketError>,
    before: &Reader,
    after: &Reader,
    want: Parsed<Map<i16, u32>>,
) -> bool {
    &&& after.kept(before)
    &&& match want {
        Ok((v, next)) => r is Ok && r->Ok_0@ == v && after.position() == next,
        Err(e) => r is Err && r->Err_0 == e,
    }
}

fn read_stock(reader: &mut Reader, legacy: bool) -> (r: Result<HashMap<i16, u32>, PacketError>)
    requires
        old(reader).wf(),
    ensures
        decoded_map(
            r,
            old(reader),
            final(reader),
            parse_stock(old(reader).data(), old(reader).position(), legacy),
        ),
{
    let count: usize = if legacy {
        reader.need(1)?;
        reader.byte() as usize
    } else {
        reader.need(2)?;
        let n = reader.short();
        if n < 0 {
            0
        } else {
            n as usize
        }
    };
    let width: usize = if legacy {
        5
    } else {
        6
    };
    reader.need_items(count, width)?;
    let ghost s = reader.data();
    let ghost start = reader.position();
    let mut items: HashMap<i16, u32> = HashMap::new();
    let mut i: usize = 0;
    while i < count
        invariant
            i <= count,
            width == stock_width(legacy),
            reader.wf(),
            reader.data() == s,
            reader.position() == start + i * width,
            start + count * width <= s.len(),
            items@ == stock_at(s, start, i as nat, legacy),
        decreases count - i,
    {
        assert(i * width + width <= count * width) by (nonlinear_arith)
            requires
                i < count,
                width > 0,
        ;
        let id: i16 = if legacy {
            reader.byte() as i16
        } else {
            reader.short()
        };
        let amount = reader.int32();
        items.insert(id, amount);
        i += 1;
        assert(i * width == (i - 1) * width + width) by (nonlinear_arith);
    }
    Ok(items)
}

pub fn read_block_items(reader: &mut Reader, legacy: bool) -> (r: Result<
    HashMap<i16, u32>,
    PacketError,
>)
    requires
        old(reader).wf(),
    ensures
        decoded_map(
            r,
            old(reader),
            final(reader),
            parse_stock(old(reader).data(), old(reader).position(), legacy),
        ),
{
    read_stock(reader, legacy)
}

pub fn read_block_liquids(reader: &mut Reader, legacy: bool) -> (r: Result<
    HashMap<i16, u32>,
    PacketError,
>)
    requires
        old(reader).wf(),
    ensures
        decoded_map(
            r,
            old(reader),
            final(reader),
            parse_stock(old(reader).data(), old(reader).position(), legacy),
        ),
{
    read_stock(reader, legacy)
}

/// The power sub-record of a block: the tiles it is linked to, and its
/// satisfaction.
#[derive(Debug, Clone)]
pub struct BlockPowerData {
    pub links: Vec<Tile>,
    pub status: Float,
}

/// What a `BlockPowerData` holds, as plain mathematical values.
pub struct BlockPowerView {
    pub links: Seq<Tile>,
    pub status: Float,
}

impl DeepView for BlockPowerData {
    type V = BlockPowerView;

    open spec fn deep_view(&self) -> BlockPowerView {
        BlockPowerView { links: self.links@, status: self.status }
    }
}

/// The tile that a packed 32-bit word names.
pub open spec fn tile_of(word: u32) -> Tile {
    Tile { x: unpacked(word).x, y: unpacked(word).y }
}

/// `n` tiles, each packed in a 32-bit word, one behind the other from `pos`.
pub open spec fn links_at(s: Seq<u8>, pos: int, n: nat) -> Seq<Tile> {
    Seq::new(n, |i: int| tile_of(u32_at(s, pos + 4 * i)))
}

/// The power sub-record that starts at `pos`: a signed 16-bit count, that
/// many packed tiles, and a 32-bit IEEE-754 number.
pub open spec fn parse_power(s: Seq<u8>, pos: int) -> Parsed<BlockPowerView> {
    if pos + 2 > s.len() {
        Err(PacketError::UnexpectedEnd)
    } else {
        let n = count_of(i16_at(s, pos) as int);
        let end = pos + 2 + 4 * n;
        if end + 4 > s.len() {
            Err(PacketError::UnexpectedEnd)
        } else {
            Ok(
                (
                    BlockPowerView {
                        links: links_at(s, pos + 2, n),
                        status: Float { bits: u32_at(s, end) },
                    },
                    end + 4,
                ),
            )
        }
    }
}

pub fn read_block_power(reader: &mut Reader) -> (r: Result<BlockPowerData, PacketError>)
    requires
        old(reader).wf(),
    ensures
        decoded(
            r,
            old(reader),
            final(reader),
            parse_power(old(reader).data(), old(reader).position()),
        ),
{
    reader.need(2)?;
    let amount = reader.short();
    let n: usize = if amount < 0 {
        0
    } else {
        amount as usize
    };
    reader.need(4 * n + 4)?;
    let ghost s = reader.data();
    let ghost start = reader.position();
    let mut links: Vec<Tile> = Vec::new();
    let mut i: usize = 0;
    while i < n
        invariant
            i <= n,
            reader.wf(),
            reader.data() == s,
            reader.position() == start + 4 * i,
            start + 4 * n + 4 <= s.len(),
            links@ == links_at(s, start, i as nat),
        decreases n - i,
    {
        let link = reader.int32();
        let data = Point2::unpack(link);
        links.push(Tile { x: data.x, y: data.y });
        i += 1;
        assert(links@ =~= links_at(s, start, i as nat));
    }
    let status = reader.float();
    Ok(BlockPowerData { links, status })
}

/// The state that every block entity carries.
#[derive(Debug, Clone)]
pub struct BaseBlockData {
    pub health: Float,
    pub rotation: u8,
    pub version: u8,
    pub legacy: bool,
    pub on: Option<u8>,
    pub team: u8,
    pub module_bitmask: u8,
    pub items: Option<HashMap<i16, u32>>,
    pub liquids: Option<HashMap<i16, u32>>,
    pub power: Option<BlockPowerData>,
}

/// What a `BaseBlockData` holds, as plain mathematical values.
pub struct BaseBlockView {
    pub health: Float,
    pub rotation: u8,
    pub version: u8,
    pub legacy: bool,
    pub on: Option<u8>,
    pub team: u8,
    pub module_bitmask: u8,
    pub items: Option<Map<i16, u32>>,
    pub liquids: Option<Map<i16, u32>>,
    pub power: Option<BlockPowerView>,
}

/// The contents of an optional map.
pub open spec fn map_view(m: Option<HashMap<i16, u32>>) -> Option<Map<i16, u32>> {
    match m {
        Some(m) => Some(m@),
        None => None,
    }
}

impl DeepView for BaseBlockData {
    type V = BaseBlockView;

    open spec fn deep_view(&self) -> BaseBlockView {
        BaseBlockView {
            health: self.health,
            rotation: self.rotation,
            version: self.version,
            legacy: self.legacy,
            on: self.on,
            team: self.team,
            module_bitmask: self.module_bitmask,
            items: map_view(self.items),
            liquids: map_view(self.liquids),
            power: self.power.deep_view(),
        }
    }
}

/// The extended header of a block entity, or what stands for it in a legacy
/// record.
#[derive(Debug, Clone, Copy, PartialEq, Eq, Structural)]
pub struct BlockHeader {
    pub legacy: bool,
    pub version: u8,
    pub on: Option<u8>,
    pub module_bitmask: u8,
}

impl DeepView for BlockHeader {
    type V = BlockHeader;

    open spec fn deep_view(&self) -> BlockHeader {
        *self
    }
}

/// The header behind the rotation byte `rotation_byte`, from `pos`. With bit
/// 7 of the rotation byte clear there is none: the record is a legacy one of
/// version zero, with the bitmask `default_mask`. With it set, a version
/// byte follows, from version 1 an on-flag, and from version 2 the bitmask.
pub open spec fn parse_header(s: Seq<u8>, pos: int, rotation_byte: u8, default_mask: u8) -> Parsed<
    BlockHeader,
> {
    if rotation_byte < 128 {
        Ok((BlockHeader { legacy: true, version: 0, on: None, module_bitmask: default_mask }, pos))
    } else if pos + 1 > s.len() {
        Err(PacketError::UnexpectedEnd)
    } else if s[pos] == 0 {
        Ok(
            (
                BlockHeader { legacy: false, version: 0, on: None, module_bitmask: default_mask },
                pos + 1,
            ),
        )
    } else if pos + 2 > s.len() {
        Err(PacketError::UnexpectedEnd)
    } else if s[pos] == 1 {
        Ok(
            (
                BlockHeader {
                    legacy: false,
                    version: 1,
                    on: Some(s[pos + 1]),
                    module_bitmask: default_mask,
                },
                pos + 2,
            ),
        )
    } else if pos + 3 > s.len() {
        Err(PacketError::UnexpectedEnd)
    } else {
        Ok(
            (
                BlockHeader {
                    legacy: false,
                    version: s[pos],
                    on: Some(s[pos + 1]),
                    module_bitmask: s[pos + 2],
                },
                pos + 3,
            ),
        )
    }
}

/// An optional item or liquid record from `pos`: there when `present`.
pub open spec fn parse_stock_if(s: Seq<u8>, pos: int, present: bool, legacy: bool) -> Parsed<
    Option<Map<i16, u32>>,
> {
    if !present {
        Ok((None, pos))
    } else {
        match parse_stock(s, pos, legacy) {
            Err(e) => Err(e),
            Ok((m, next)) => Ok((Some(m), next)),
        }
    }
}

/// An optional power record from `pos`: there when `present`.
pub open spec fn parse_power_if(s: Seq<u8>, pos: int, present: bool) -> Parsed<
    Option<BlockPowerView>,
> {
    if !present {
        Ok((None, pos))
    } else {
        match parse_power(s, pos) {
            Err(e) => Err(e),
            Ok((m, next)) => Ok((Some(m), next)),
        }
    }
}

/// The number of reserved bytes that close the base state: one up to
/// version 2, two from version 3.
pub open spec fn base_tail(version: u8) -> int {
    if version <= 2 {
        1
    } else {
        2
    }
}

/// The base state of a block entity from `pos`: health, the rotation byte
/// with its header, the team, then the item, power and liquid records that
/// bits 0, 1 and 2 of the bitmask announce, and the reserved bytes.
#[verifier::opaque]
pub open spec fn parse_base(s: Seq<u8>, pos: int, default_mask: u8) -> Parsed<BaseBlockView> {
    if pos + 5 > s.len() {
        Err(PacketError::UnexpectedEnd)
    } else {
        match parse_header(s, pos + 5, s[pos + 4], default_mask) {
            Err(e) => Err(e),
            Ok((h, p1)) => if p1 + 1 > s.len() {
                Err(PacketError::UnexpectedEnd)
            } else {
                match parse_stock_if(s, p1 + 1, has_bit(h.module_bitmask, 0), h.legacy) {
                    Err(e) => Err(e),
                    Ok((items, p2)) => match parse_power_if(s, p2, has_bit(h.module_bitmask, 1)) {
                        Err(e) => Err(e),
                        Ok((power, p3)) => match parse_stock_if(
                            s,
                            p3,
                            has_bit(h.module_bitmask, 2),
                            h.legacy,
                        ) {
                            Err(e) => Err(e),
                            Ok((liquids, p4)) => if p4 + base_tail(h.version) > s.len() {
                                Err(PacketError::UnexpectedEnd)
                            } else {
                                Ok(
                                    (
                                        BaseBlockView {
                                            health: Float { bits: u32_at(s, pos) },
                                            rotation: (s[pos + 4] % 128) as u8,
                                            version: h.version,
                                            legacy: h.legacy,
                                            on: h.on,
                                            team: s[p1],
                                            module_bitmask: h.module_bitmask,
                                            items,
                                            liquids,
                                            power,
                                        },
                                        p4 + base_tail(h.version),
                                    ),
                                )
                            },
                        },
                    },
                }
            },
        }
    }
}

fn read_header(reader: &mut Reader, rotation_byte: u8, default_mask: u8) -> (r: Result<
    BlockHeader,
    PacketError,
>)
    requires
        old(reader).wf(),
    ensures
        decoded(
            r,
            old(reader),
            final(reader),
            parse_header(old(reader).data(), old(reader).position(), rotation_byte, default_mask),
        ),
        r matches Ok(h) ==> (h.legacy ==> h.version == 0),
{
    let mut version: u8 = 0;
    let mut legacy = true;
    let mut on: Option<u8> = None;
    let mut module_bitmask = default_mask;
    if rotation_byte >= 128 {
        reader.need(1)?;
        version = reader.byte();
        if version >= 1 {
            reader.need(1)?;
            on = Some(reader.byte());
        }
        if version >= 2 {
            reader.need(1)?;
            module_bitmask = reader.byte();
        }
        legacy = false;
    }
    Ok(BlockHeader { legacy, version, on, module_bitmask })
}

fn read_items_if(reader: &mut Reader, present: bool, legacy: bool) -> (r: Result<
    Option<HashMap<i16, u32>>,
    PacketError,
>)
    requires
        old(reader).wf(),
    ensures
        final(reader).kept(old(reader)),
        match parse_stock_if(old(reader).data(), old(reader).position(), present, legacy) {
            Ok((v, next)) => r is Ok && map_view(r->Ok_0) == v && final(reader).position()
                == next,
            Err(e) => r is Err && r->Err_0 == e,
        },
{
    if present {
        Ok(Some(read_block_items(reader, legacy)?))
    } else {
        Ok(None)
    }
}

fn read_liquids_if(reader: &mut Reader, present: bool, legacy: bool) -> (r: Result<
    Option<HashMap<i16, u32>>,
    PacketError,
>)
    requires
        old(reader).wf(),
    ensures
        final(reader).kept(old(reader)),
        match parse_stock_if(old(reader).data(), old(reader).position(), present, legacy) {
            Ok((v, next)) => r is Ok && map_view(r->Ok_0) == v && final(reader).position()
                == next,
            Err(e) => r is Err && r->Err_0 == e,
        },
{
    if present {
        Ok(Some(read_block_liquids(reader, legacy)?))
    } else {
        Ok(None)
    }
}

fn read_power_if(reader: &mut Reader, present: bool) -> (r: Result<
    Option<BlockPowerData>,
    PacketError,
>)
    requires
        old(reader).wf(),
    ensures
        decoded(
            r,
            old(reader),
            final(reader),
            parse_power_if(old(reader).data(), old(reader).position(), present),
        ),
{
    if present {
        Ok(Some(read_block_power(reader)?))
    } else {
        Ok(None)
    }
}

/// Reads the base state of the block named `id`.
pub fn read_base_block_data(reader: &mut Reader, id: &str, block_params: &Table<BlockParam>) -> (r:
    Result<BaseBlockData, PacketError>)
    requires
        old(reader).wf(),
    ensures
        decoded(
            r,
            old(reader),
            final(reader),
            parse_base(
                old(reader).data(),
                old(reader).position(),
                default_bitmask(block_params.deep_view(), id@),
            ),
        ),
        r matches Ok(base) ==> base.rotation <= 127 && (base.legacy ==> base.version == 0),
{
    reveal(parse_base);
    reader.need(5)?;
    let health = reader.float();
    let rotation_byte = reader.byte();
    let rotation = rotation_byte % 128;
    let header = read_header(reader, rotation_byte, get_module_bitmask(id, block_params))?;
    reader.need(1)?;
    let team = reader.byte();
    let items = read_items_if(reader, header.module_bitmask % 2 == 1, header.legacy)?;
    let power = read_power_if(reader, (header.module_bitmask / 2) % 2 == 1)?;
    let liquids = read_liquids_if(reader, (header.module_bitmask / 4) % 2 == 1, header.legacy)?;
    if header.version <= 2 {
        reader.need(1)?;
        reader.byte();
    } else {
        reader.need(2)?;
        reader.byte();
        reader.byte();
    }
    Ok(
        BaseBlockData {
            health,
            rotation,
            team,
            version: header.version,
            module_bitmask: header.module_bitmask,
            legacy: header.legacy,
            on: header.on,
            items,
            power,
            liquids,
        },
    )
}

/// The kinds of block types that differ in the bytes of their own state. A
/// kind stands for every block type that shares its schedule.
#[derive(Debug, Clone, Copy, PartialEq, Eq, Structural)]
pub enum BlockKind {
    /// A crafter without a record of its own: generic, heat and attribute crafters.
    Crafter,
    Separator,
    HeatProducer,
    Door,
    ShieldWall,
    MendProjector,
    OverdriveProjector,
    ForceProjector,
    Radar,
    BuildTurret,
    BaseShield,
    Conveyor,
    StackConveyor,
    Junction,
    BufferedItemBridge,
    ItemBridge,
    Sorter,
    OverflowGate,
    MassDriver,
    Duct,
    DuctRouter,
    DirectionalUnloader,
    UnitCargoLoader,
    UnitCargoUnloadPoint,
    NuclearReactor,
    ImpactReactor,
    VariableReactor,
    HeaterGenerator,
    Drill,
    Unloader,
    ItemTurret,
    TractorBeamTurret,
    PointDefenseTurret,
    ContinuousTurret,
    RepairTurret,
    UnitFactory,
    Reconstructor,
    UnitAssembler,
    PayloadConveyor,
    PayloadRouter,
    PayloadMassDriver,
    PayloadDeconstructor,
    Constructor,
    PayloadLoader,
    ItemSource,
    LiquidSource,
    PayloadSource,
    LightBlock,
    LaunchPad,
    Accelerator,
    Message,
    Switch,
    Generator,
    StackRouter,
    LiquidTurret,
    PowerTurret,
    LaserTurret,
    UnitAssemblerModule,
    Memory,
    LogicDisplay,
    LogicBlock,
    Canvas,
    /// A block under construction: every type whose name begins with `Build`.
    Build,
    /// A core.
    Core,
    /// Any type that carries no state of its own.
    Other,
}

/// The kind of the block type named `t`, where it is a block that makes or burns things: crafters,
/// reactors, generators and drills.
pub open spec fn production_kind(t: Seq<char>) -> Option<BlockKind> {
    if t == "GenericCrafter"@ {
        Some(BlockKind::Crafter)
    } else if t == "HeatCrafter"@ {
        Some(BlockKind::Crafter)
    } else if t == "AttributeCrafter"@ {
        Some(BlockKind::Crafter)
    } else if t == "Separator"@ {
        Some(BlockKind::Separator)
    } else if t == "HeatProducer"@ {
        Some(BlockKind::HeatProducer)
    } else if t == "NuclearReactor"@ {
        Some(BlockKind::NuclearReactor)
    } else if t == "ImpactReactor"@ {
        Some(BlockKind::ImpactReactor)
    } else if t == "VariableReactor"@ {
        Some(BlockKind::VariableReactor)
    } else if t == "HeaterGenerator"@ {
        Some(BlockKind::HeaterGenerator)
    } else if t == "ConsumeGenerator"@ {
        Some(BlockKind::Generator)
    } else if t == "ThermalGenerator"@ {
        Some(BlockKind::Generator)
    } else if t == "SolarGenerator"@ {
        Some(BlockKind::Generator)
    } else if t == "Drill"@ {
        Some(BlockKind::Drill)
    } else if t == "BeamDrill"@ {
        Some(BlockKind::Drill)
    } else if t == "BurstDrill"@ {
        Some(BlockKind::Drill)
    } else {
        None
    }
}

fn production_kind_of(t: &str) -> (r: Option<BlockKind>)
    ensures
        r == production_kind(t@),
{
    if str_eq(t, "GenericCrafter") {
        Some(BlockKind::Crafter)
    } else if str_eq(t, "HeatCrafter") {
        Some(BlockKind::Crafter)
    } else if str_eq(t, "AttributeCrafter") {
        Some(BlockKind::Crafter)
    } else if str_eq(t, "Separator") {
        Some(BlockKind::Separator)
    } else if str_eq(t, "HeatProducer") {
        Some(BlockKind::HeatProducer)
    } else if str_eq(t, "NuclearReactor") {
        Some(BlockKind::NuclearReactor)
    } else if str_eq(t, "ImpactReactor") {
        Some(BlockKind::ImpactReactor)
    } else if str_eq(t, "VariableReactor") {
        Some(BlockKind::VariableReactor)
    } else if str_eq(t, "HeaterGenerator") {
        Some(BlockKind::HeaterGenerator)
    } else if str_eq(t, "ConsumeGenerator") {
        Some(BlockKind::Generator)
    } else if str_eq(t, "ThermalGenerator") {
        Some(BlockKind::Generator)
    } else if str_eq(t, "SolarGenerator") {
        Some(BlockKind::Generator)
    } else if str_eq(t, "Drill") {
        Some(BlockKind::Drill)
    } else if str_eq(t, "BeamDrill") {
        Some(BlockKind::Drill)
    } else if str_eq(t, "BurstDrill") {
        Some(BlockKind::Drill)
    } else {
        None
    }
}

/// The kind of the block type named `t`, where it is a block that guards: doors, walls, projectors,
/// shields and turrets.
pub open spec fn defence_kind(t: Seq<char>) -> Option<BlockKind> {
    if t == "Door"@ {
        Some(BlockKind::Door)
    } else if t == "AutoDoor"@ {
        Some(BlockKind::Door)
    } else if t == "ShieldWall"@ {
        Some(BlockKind::ShieldWall)
    } else if t == "MendProjector"@ {
        Some(BlockKind::MendProjector)
    } else if t == "OverdriveProjector"@ {
        Some(BlockKind::OverdriveProjector)
    } else if t == "ForceProjector"@ {
        Some(BlockKind::ForceProjector)
    } else if t == "Radar"@ {
        Some(BlockKind::Radar)
    } else if t == "BuildTurret"@ {
        Some(BlockKind::BuildTurret)
    } else if t == "BaseShield"@ {
        Some(BlockKind::BaseShield)
    } else if t == "ItemTurret"@ {
        Some(BlockKind::ItemTurret)
    } else if t == "TractorBeamTurret"@ {
        Some(BlockKind::TractorBeamTurret)
    } else if t == "PointDefenseTurret"@ {
        Some(BlockKind::PointDefenseTurret)
    } else if t == "ContinuousTurret"@ {
        Some(BlockKind::ContinuousTurret)
    } else if t == "ContinuousLiquidTurret"@ {
        Some(BlockKind::ContinuousTurret)
    } else if t == "RepairTurret"@ {
        Some(BlockKind::RepairTurret)
    } else if t == "LiquidTurret"@ {
        Some(BlockKind::LiquidTurret)
    } else if t == "PowerTurret"@ {
        Some(BlockKind::PowerTurret)
    } else if t == "LaserTurret"@ {
        Some(BlockKind::LaserTurret)
    } else {
        None
    }
}

fn defence_kind_of(t: &str) -> (r: Option<BlockKind>)
    ensures
        r == defence_kind(t@),
{
    if str_eq(t, "Door") {
        Some(BlockKind::Door)
    } else if str_eq(t, "AutoDoor") {
        Some(BlockKind::Door)
    } else if str_eq(t, "ShieldWall") {
        Some(BlockKind::ShieldWall)
    } else if str_eq(t, "MendProjector") {
        Some(BlockKind::MendProjector)
    } else if str_eq(t, "OverdriveProjector") {
        Some(BlockKind::OverdriveProjector)
    } else if str_eq(t, "ForceProjector") {
        Some(BlockKind::ForceProjector)
    } else if str_eq(t, "Radar") {
        Some(BlockKind::Radar)
    } else if str_eq(t, "BuildTurret") {
        Some(BlockKind::BuildTurret)
    } else if str_eq(t, "BaseShield") {
        Some(BlockKind::BaseShield)
    } else if str_eq(t, "ItemTurret") {
        Some(BlockKind::ItemTurret)
    } else if str_eq(t, "TractorBeamTurret") {
        Some(BlockKind::TractorBeamTurret)
    } else if str_eq(t, "PointDefenseTurret") {
        Some(BlockKind::PointDefenseTurret)
    } else if str_eq(t, "ContinuousTurret") {
        Some(BlockKind::ContinuousTurret)
    } else if str_eq(t, "ContinuousLiquidTurret") {
        Some(BlockKind::ContinuousTurret)
    } else if str_eq(t, "RepairTurret") {
        Some(BlockKind::RepairTurret)
    } else if str_eq(t, "LiquidTurret") {
        Some(BlockKind::LiquidTurret)
    } else if str_eq(t, "PowerTurret") {
        Some(BlockKind::PowerTurret)
    } else if str_eq(t, "LaserTurret") {
        Some(BlockKind::LaserTurret)
    } else {
        None
    }
}

/// The kind of the block type named `t`, where it is a block that moves items or liquids.
pub open spec fn transport_kind(t: Seq<char>) -> Option<BlockKind> {
    if t == "Conveyor"@ {
        Some(BlockKind::Conveyor)
    } else if t == "ArmoredConveyor"@ {
        Some(BlockKind::Conveyor)
    } else if t == "StackConveyor"@ {
        Some(BlockKind::StackConveyor)
    } else if t == "Junction"@ {
        Some(BlockKind::Junction)
    } else if t == "BufferedItemBridge"@ {
        Some(BlockKind::BufferedItemBridge)
    } else if t == "ItemBridge"@ {
        Some(BlockKind::ItemBridge)
    } else if t == "LiquidBridge"@ {
        Some(BlockKind::ItemBridge)
    } else if t == "Sorter"@ {
        Some(BlockKind::Sorter)
    } else if t == "OverflowGate"@ {
        Some(BlockKind::OverflowGate)
    } else if t == "MassDriver"@ {
        Some(BlockKind::MassDriver)
    } else if t == "Duct"@ {
        Some(BlockKind::Duct)
    } else if t == "DuctRouter"@ {
        Some(BlockKind::DuctRouter)
    } else if t == "DirectionalUnloader"@ {
        Some(BlockKind::DirectionalUnloader)
    } else if t == "UnitCargoLoader"@ {
        Some(BlockKind::UnitCargoLoader)
    } else if t == "UnitCargoUnloadPoint"@ {
        Some(BlockKind::UnitCargoUnloadPoint)
    } else if t == "Unloader"@ {
        Some(BlockKind::Unloader)
    } else if t == "ItemSource"@ {
        Some(BlockKind::ItemSource)
    } else if t == "LiquidSource"@ {
        Some(BlockKind::LiquidSource)
    } else if t == "StackRouter"@ {
        Some(BlockKind::StackRouter)
    } else {
        None
    }
}

fn transport_kind_of(t: &str) -> (r: Option<BlockKind>)
    ensures
        r == transport_kind(t@),
{
    if str_eq(t, "Conveyor") {
        Some(BlockKind::Conveyor)
    } else if str_eq(t, "ArmoredConveyor") {
        Some(BlockKind::Conveyor)
    } else if str_eq(t, "StackConveyor") {
        Some(BlockKind::StackConveyor)
    } else if str_eq(t, "Junction") {
        Some(BlockKind::Junction)
    } else if str_eq(t, "BufferedItemBridge") {
        Some(BlockKind::BufferedItemBridge)
    } else if str_eq(t, "ItemBridge") {
        Some(BlockKind::ItemBridge)
    } else if str_eq(t, "LiquidBridge") {
        Some(BlockKind::ItemBridge)
    } else if str_eq(t, "Sorter") {
        Some(BlockKind::Sorter)
    } else if str_eq(t, "OverflowGate") {
        Some(BlockKind::OverflowGate)
    } else if str_eq(t, "MassDriver") {
        Some(BlockKind::MassDriver)
    } else if str_eq(t, "Duct") {
        Some(BlockKind::Duct)
    } else if str_eq(t, "DuctRouter") {
        Some(BlockKind::DuctRouter)
    } else if str_eq(t, "DirectionalUnloader") {
        Some(BlockKind::DirectionalUnloader)
    } else if str_eq(t, "UnitCargoLoader") {
        Some(BlockKind::UnitCargoLoader)
    } else if str_eq(t, "UnitCargoUnloadPoint") {
        Some(BlockKind::UnitCargoUnloadPoint)
    } else if str_eq(t, "Unloader") {
        Some(BlockKind::Unloader)
    } else if str_eq(t, "ItemSource") {
        Some(BlockKind::ItemSource)
    } else if str_eq(t, "LiquidSource") {
        Some(BlockKind::LiquidSource)
    } else if str_eq(t, "StackRouter") {
        Some(BlockKind::StackRouter)
    } else {
        None
    }
}

/// The kind of the block type named `t`, where it is a block that holds a payload.
pub open spec fn payload_kind(t: Seq<char>) -> Option<BlockKind> {
    if t == "UnitFactory"@ {
        Some(BlockKind::UnitFactory)
    } else if t == "Reconstructor"@ {
        Some(BlockKind::Reconstructor)
    } else if t == "UnitAssembler"@ {
        Some(BlockKind::UnitAssembler)
    } else if t == "PayloadConveyor"@ {
        Some(BlockKind::PayloadConveyor)
    } else if t == "PayloadRouter"@ {
        Some(BlockKind::PayloadRouter)
    } else if t == "PayloadMassDriver"@ {
        Some(BlockKind::PayloadMassDriver)
    } else if t == "PayloadDeconstructor"@ {
        Some(BlockKind::PayloadDeconstructor)
    } else if t == "Constructor"@ {
        Some(BlockKind::Constructor)
    } else if t == "PayloadLoader"@ {
        Some(BlockKind::PayloadLoader)
    } else if t == "PayloadSource"@ {
        Some(BlockKind::PayloadSource)
    } else if t == "UnitAssemblerModule"@ {
        Some(BlockKind::UnitAssemblerModule)
    } else {
        None
    }
}

fn payload_kind_of(t: &str) -> (r: Option<BlockKind>)
    ensures
        r == payload_kind(t@),
{
    if str_eq(t, "UnitFactory") {
        Some(BlockKind::UnitFactory)
    } else if str_eq(t, "Reconstructor") {
        Some(BlockKind::Reconstructor)
    } else if str_eq(t, "UnitAssembler") {
        Some(BlockKind::UnitAssembler)
    } else if str_eq(t, "PayloadConveyor") {
        Some(BlockKind::PayloadConveyor)
    } else if str_eq(t, "PayloadRouter") {
        Some(BlockKind::PayloadRouter)
    } else if str_eq(t, "PayloadMassDriver") {
        Some(BlockKind::PayloadMassDriver)
    } else if str_eq(t, "PayloadDeconstructor") {
        Some(BlockKind::PayloadDeconstructor)
    } else if str_eq(t, "Constructor") {
        Some(BlockKind::Constructor)
    } else if str_eq(t, "PayloadLoader") {
        Some(BlockKind::PayloadLoader)
    } else if str_eq(t, "PayloadSource") {
        Some(BlockKind::PayloadSource)
    } else if str_eq(t, "UnitAssemblerModule") {
        Some(BlockKind::UnitAssemblerModule)
    } else {
        None
    }
}

/// The kind of the block type named `t`, where it is a block of logic, light or launch.
pub open spec fn logic_kind(t: Seq<char>) -> Option<BlockKind> {
    if t == "LightBlock"@ {
        Some(BlockKind::LightBlock)
    } else if t == "LaunchPad"@ {
        Some(BlockKind::LaunchPad)
    } else if t == "Accelerator"@ {
        Some(BlockKind::Accelerator)
    } else if t == "MessageBlock"@ {
        Some(BlockKind::Message)
    } else if t == "SwitchBlock"@ {
        Some(BlockKind::Switch)
    } else if t == "MemoryBlock"@ {
        Some(BlockKind::Memory)
    } else if t == "LogicDisplay"@ {
        Some(BlockKind::LogicDisplay)
    } else if t == "LogicBlock"@ {
        Some(BlockKind::LogicBlock)
    } else if t == "CanvasBlock"@ {
        Some(BlockKind::Canvas)
    } else {
        None
    }
}

fn logic_kind_of(t: &str) -> (r: Option<BlockKind>)
    ensures
        r == logic_kind(t@),
{
    if str_eq(t, "LightBlock") {
        Some(BlockKind::LightBlock)
    } else if str_eq(t, "LaunchPad") {
        Some(BlockKind::LaunchPad)
    } else if str_eq(t, "Accelerator") {
        Some(BlockKind::Accelerator)
    } else if str_eq(t, "MessageBlock") {
        Some(BlockKind::Message)
    } else if str_eq(t, "SwitchBlock") {
        Some(BlockKind::Switch)
    } else if str_eq(t, "MemoryBlock") {
        Some(BlockKind::Memory)
    } else if str_eq(t, "LogicDisplay") {
        Some(BlockKind::LogicDisplay)
    } else if str_eq(t, "LogicBlock") {
        Some(BlockKind::LogicBlock)
    } else if str_eq(t, "CanvasBlock") {
        Some(BlockKind::Canvas)
    } else {
        None
    }
}

/// The kind of the block type named `t`. A name that is not listed has the
/// kind `Build` where it begins with `Build`, the kind `Core` where it is
/// `CoreBlock`, and else the kind `Other`.
#[verifier::opaque]
pub open spec fn kind_of(t: Seq<char>) -> BlockKind {
    if production_kind(t) is Some {
        production_kind(t)->Some_0
    } else if defence_kind(t) is Some {
        defence_kind(t)->Some_0
    } else if transport_kind(t) is Some {
        transport_kind(t)->Some_0
    } else if payload_kind(t) is Some {
        payload_kind(t)->Some_0
    } else if logic_kind(t) is Some {
        logic_kind(t)->Some_0
    } else if begins_with(t, "Build"@) {
        BlockKind::Build
    } else if t == "CoreBlock"@ {
        BlockKind::Core
    } else {
        BlockKind::Other
    }
}

/// Finds the kind of a block type by its name.
pub fn classify(t: &str) -> (k: BlockKind)
    ensures
        k == kind_of(t@),
{
    reveal(kind_of);
    if let Some(k) = production_kind_of(t) {
        k
    } else if let Some(k) = defence_kind_of(t) {
        k
    } else if let Some(k) = transport_kind_of(t) {
        k
    } else if let Some(k) = payload_kind_of(t) {
        k
    } else if let Some(k) = logic_kind_of(t) {
        k
    } else if str_begins_with(t, "Build") {
        BlockKind::Build
    } else if str_eq(t, "CoreBlock") {
        BlockKind::Core
    } else {
        BlockKind::Other
    }
}

/// One item on a conveyor: what it is and where on the belt it lies.
#[derive(Debug, Clone, Copy, PartialEq, Eq, Structural)]
pub struct ConveyorItem {
    pub item_id: u32,
    pub x: u32,
    pub y: u32,
}

/// The four directional queues of a junction-like block. Each holds the
/// first `capacity` of the entries that were sent for it.
#[derive(Debug, Clone)]
pub struct DirectionalItemBuffer {
    pub indexes: Vec<u8>,
    pub values: Vec<Vec<u64>>,
    pub capacity: u8,
}

/// What a `DirectionalItemBuffer` holds, as plain mathematical values.
pub struct DirectionalItemBufferView {
    pub indexes: Seq<u8>,
    pub values: Seq<Seq<u64>>,
    pub capacity: u8,
}

impl DeepView for DirectionalItemBuffer {
    type V = DirectionalItemBufferView;

    open spec fn deep_view(&self) -> DirectionalItemBufferView {
        DirectionalItemBufferView {
            indexes: self.indexes@,
            values: self.values.deep_view(),
            capacity: self.capacity,
        }
    }
}

/// What a mass driver is doing.
#[derive(Debug, Clone, Copy, PartialEq, Eq, Structural)]
pub enum MassDriverState {
    Idle,
    Accepting,
    Shooting,
}

impl MassDriverState {
    /// The state that a byte stands for; bytes above 2 stand for none.
    pub open spec fn of_code(code: u8) -> Option<MassDriverState> {
        if code == 0 {
            Some(MassDriverState::Idle)
        } else if code == 1 {
            Some(MassDriverState::Accepting)
        } else if code == 2 {
            Some(MassDriverState::Shooting)
        } else {
            None
        }
    }

    pub fn from_byte(code: u8) -> (r: Option<MassDriverState>)
        ensures
            r == MassDriverState::of_code(code),
    {
        if code == 0 {
            Some(MassDriverState::Idle)
        } else if code == 1 {
            Some(MassDriverState::Accepting)
        } else if code == 2 {
            Some(MassDriverState::Shooting)
        } else {
            None
        }
    }
}

/// The state of a block entity beyond its base state, for the block types
/// whose state is kept.
#[derive(Debug, Clone)]
#[allow(inconsistent_fields)]
pub enum SpecificBlockData {
    Door { open: bool },
    ShieldWall { shield: Float },
    MendProjector { heat: Float, phase_heat: Float },
    OverdriveProjector { heat: Float, phase_heat: Float },
    ForceProjector {
        broken: bool,
        buildup: Float,
        radius_scale: Float,
        warmup: Float,
        phase_heat: Float,
    },
    Radar { progress: Float },
    BuildTurret { rotation: Float, plans: Vec<Plan> },
    BaseShield { smooth_radius: Float, broken: bool },
    Conveyor { items: Vec<ConveyorItem> },
    StackConveyor { link: u32, cooldown: Float },
    Junction { buffer: DirectionalItemBuffer },
    Sorter { sort_item: i16, buffer: Option<DirectionalItemBuffer> },
    OverflowGate { buffer: Option<DirectionalItemBuffer> },
    MassDriver { link: u32, rotation: Float, state: MassDriverState },
    Duct { received_direction: Option<u8> },
    DuctRouter { sort_item: Option<i16> },
    DirectionalUnloader { item_id: i16, offset: i16 },
    UnitCargoLoader { unit_id: u32 },
    UnitCargoUnloadPoint { item_id: i16, stale: bool },
    HeaterGenerator { heat: Float },
    Unloader { item_id: i16 },
    TractorBeamTurret { rotation: Float },
    PointDefenseTurret { rotation: Float },
    ContinuousTurret {
        reload_counter: Option<Float>,
        rotation: Option<Float>,
        last_length: Option<Float>,
    },
    RepairTurret { rotation: Float },
    ItemSource { item_id: i16 },
    LiquidSource { liquid_id: i16 },
    LightBlock { color: u32 },
    Accelerator { progress: Float },
    Message { message: Option<String> },
    Switch { enabled: bool },
    LiquidTurret { reload_counter: Float, rotation: Float },
    PowerTurret { reload_counter: Float, rotation: Float },
    LaserTurret { reload_counter: Float, rotation: Float },
    Memory { memory: Vec<Double> },
    Canvas { data: Vec<u8> },
}

/// What a `SpecificBlockData` holds, as plain mathematical values.
#[allow(inconsistent_fields)]
pub enum SpecificBlockView {
    Door { open: bool },
    ShieldWall { shield: Float },
    MendProjector { heat: Float, phase_heat: Float },
    OverdriveProjector { heat: Float, phase_heat: Float },
    ForceProjector {
        broken: bool,
        buildup: Float,
        radius_scale: Float,
        warmup: Float,
        phase_heat: Float,
    },
    Radar { progress: Float },
    BuildTurret { rotation: Float, plans: Seq<PlanView> },
    BaseShield { smooth_radius: Float, broken: bool },
    Conveyor { items: Seq<ConveyorItem> },
    StackConveyor { link: u32, cooldown: Float },
    Junction { buffer: DirectionalItemBufferView },
    Sorter { sort_item: i16, buffer: Option<DirectionalItemBufferView> },
    OverflowGate { buffer: Option<DirectionalItemBufferView> },
    MassDriver { link: u32, rotation: Float, state: MassDriverState },
    Duct { received_direction: Option<u8> },
    DuctRouter { sort_item: Option<i16> },
    DirectionalUnloader { item_id: i16, offset: i16 },
    UnitCargoLoader { unit_id: u32 },
    UnitCargoUnloadPoint { item_id: i16, stale: bool },
    HeaterGenerator { heat: Float },
    Unloader { item_id: i16 },
    TractorBeamTurret { rotation: Float },
    PointDefenseTurret { rotation: Float },
    ContinuousTurret {
        reload_counter: Option<Float>,
        rotation: Option<Float>,
        last_length: Option<Float>,
    },
    RepairTurret { rotation: Float },
    ItemSource { item_id: i16 },
    LiquidSource { liquid_id: i16 },
    LightBlock { color: u32 },
    Accelerator { progress: Float },
    Message { message: Option<Seq<char>> },
    Switch { enabled: bool },
    LiquidTurret { reload_counter: Float, rotation: Float },
    PowerTurret { reload_counter: Float, rotation: Float },
    LaserTurret { reload_counter: Float, rotation: Float },
    Memory { memory: Seq<Double> },
    Canvas { data: Seq<u8> },
}

impl DeepView for SpecificBlockData {
    type V = SpecificBlockView;

    open spec fn deep_view(&self) -> SpecificBlockView {
        match self {
            SpecificBlockData::Door { open } => SpecificBlockView::Door {
                open: *open,
            },
            SpecificBlockData::ShieldWall { shield } => SpecificBlockView::ShieldWall {
                shield: *shield,
            },
            SpecificBlockData::MendProjector {
                heat,
                phase_heat,
            } => SpecificBlockView::MendProjector {
                heat: *heat,
                phase_heat: *phase_heat,
            },
            SpecificBlockData::OverdriveProjector {
                heat,
                phase_heat,
            } => SpecificBlockView::OverdriveProjector {
                heat: *heat,
                phase_heat: *phase_heat,
            },
            SpecificBlockData::ForceProjector {
                broken,
                buildup,
                radius_scale,
                warmup,
                phase_heat,
            } => SpecificBlockView::ForceProjector {
                broken: *broken,
                buildup: *buildup,
                radius_scale: *radius_scale,
                warmup: *warmup,
                phase_heat: *phase_heat,
            },
            SpecificBlockData::Radar { progress } => SpecificBlockView::Radar {
                progress: *progress,
            },
            SpecificBlockData::BuildTurret { rotation, plans } => SpecificBlockView::BuildTurret {
                rotation: *rotation,
                plans: plans.deep_view(),
            },
            SpecificBlockData::BaseShield {
                smooth_radius,
                broken,
            } => SpecificBlockView::BaseShield {
                smooth_radius: *smooth_radius,
                broken: *broken,
            },
            SpecificBlockData::Conveyor { items } => SpecificBlockView::Conveyor {
                items: items@,
            },
            SpecificBlockData::StackConveyor {
                link,
                cooldown,
            } => SpecificBlockView::StackConveyor {
                link: *link,
                cooldown: *cooldown,
            },
            SpecificBlockData::Junction { buffer } => SpecificBlockView::Junction {
                buffer: buffer.deep_view(),
            },
            SpecificBlockData::Sorter { sort_item, buffer } => SpecificBlockView::Sorter {
                sort_item: *sort_item,
                buffer: buffer.deep_view(),
            },
            SpecificBlockData::OverflowGate { buffer } => SpecificBlockView::OverflowGate {
                buffer: buffer.deep_view(),
            },
            SpecificBlockData::MassDriver {
                link,
                rotation,
                state,
            } => SpecificBlockView::MassDriver {
                link: *link,
                rotation: *rotation,
                state: *state,
            },
            SpecificBlockData::Duct { received_direction } => SpecificBlockView::Duct {
                received_direction: *received_direction,
            },
            SpecificBlockData::DuctRouter { sort_item } => SpecificBlockView::DuctRouter {
                sort_item: *sort_item,
            },
            SpecificBlockData::DirectionalUnloader {
                item_id,
                offset,
            } => SpecificBlockView::DirectionalUnloader {
                item_id: *item_id,
                offset: *offset,
            },
            SpecificBlockData::UnitCargoLoader { unit_id } => SpecificBlockView::UnitCargoLoader {
                unit_id: *unit_id,
            },
            SpecificBlockData::UnitCargoUnloadPoint {
                item_id,
                stale,
            } => SpecificBlockView::UnitCargoUnloadPoint {
                item_id: *item_id,
                stale: *stale,
            },
            SpecificBlockData::HeaterGenerator { heat } => SpecificBlockView::HeaterGenerator {
                heat: *heat,
            },
            SpecificBlockData::Unloader { item_id } => SpecificBlockView::Unloader {
                item_id: *item_id,
            },
            SpecificBlockData::TractorBeamTurret {
                rotation,
            } => SpecificBlockView::TractorBeamTurret {
                rotation: *rotation,
            },
            SpecificBlockData::PointDefenseTurret {
                rotation,
            } => SpecificBlockView::PointDefenseTurret {
                rotation: *rotation,
            },
            SpecificBlockData::ContinuousTurret {
                reload_counter,
                rotation,
                last_length,
            } => SpecificBlockView::ContinuousTurret {
                reload_counter: *reload_counter,
                rotation: *rotation,
                last_length: *last_length,
            },
            SpecificBlockData::RepairTurret { rotation } => SpecificBlockView::RepairTurret {
                rotation: *rotation,
            },
            SpecificBlockData::ItemSource { item_id } => SpecificBlockView::ItemSource {
                item_id: *item_id,
            },
            SpecificBlockData::LiquidSource { liquid_id } => SpecificBlockView::LiquidSource {
                liquid_id: *liquid_id,
            },
            SpecificBlockData::LightBlock { color } => SpecificBlockView::LightBlock {
                color: *color,
            },
            SpecificBlockData::Accelerator { progress } => SpecificBlockView::Accelerator {
                progress: *progress,
            },
            SpecificBlockData::Message { message } => SpecificBlockView::Message {
                message: message.deep_view(),
            },
            SpecificBlockData::Switch { enabled } => SpecificBlockView::Switch {
                enabled: *enabled,
            },
            SpecificBlockData::LiquidTurret {
                reload_counter,
                rotation,
            } => SpecificBlockView::LiquidTurret {
                reload_counter: *reload_counter,
                rotation: *rotation,
            },
            SpecificBlockData::PowerTurret {
                reload_counter,
                rotation,
            } => SpecificBlockView::PowerTurret {
                reload_counter: *reload_counter,
                rotation: *rotation,
            },
            SpecificBlockData::LaserTurret {
                reload_counter,
                rotation,
            } => SpecificBlockView::LaserTurret {
                reload_counter: *reload_counter,
                rotation: *rotation,
            },
            SpecificBlockData::Memory { memory } => SpecificBlockView::Memory {
                memory: memory@,
            },
            SpecificBlockData::Canvas { data } => SpecificBlockView::Canvas {
                data: data@,
            },
        }
    }
}

/// The 32-bit IEEE-754 number in the four bytes from `pos`.
pub open spec fn float_at(s: Seq<u8>, pos: int) -> Float {
    Float { bits: u32_at(s, pos) }
}

/// `w` where `cond` holds, and zero where it does not.
pub open spec fn width_if(cond: bool, w: int) -> int {
    if cond {
        w
    } else {
        0
    }
}

/// The number of bytes that the own state of a block of kind `kind` takes,
/// for the kinds whose state has a width that the kind, the version and the
/// block's name decide; zero for every other kind. `cultivator` says whether
/// the block is the one named `cultivator`, which carries one number more.
pub open spec fn fixed_width(kind: BlockKind, cultivator: bool, version: u8) -> int {
    match kind {
        BlockKind::Crafter => 8 + width_if(cultivator, 4) + width_if(version == 1, 4),
        BlockKind::Separator => 12 + width_if(cultivator, 4),
        BlockKind::HeatProducer => 12 + width_if(cultivator, 4) + width_if(version == 1, 4),
        BlockKind::Door => 1,
        BlockKind::ShieldWall => 4,
        BlockKind::MendProjector => 8,
        BlockKind::OverdriveProjector => 8,
        BlockKind::ForceProjector => 17,
        BlockKind::Radar => 4,
        BlockKind::BaseShield => 5,
        BlockKind::StackConveyor => 8,
        BlockKind::Duct => width_if(version >= 1, 1),
        BlockKind::DuctRouter => width_if(version >= 1, 2),
        BlockKind::DirectionalUnloader => 4,
        BlockKind::UnitCargoLoader => 4,
        BlockKind::UnitCargoUnloadPoint => 3,
        BlockKind::NuclearReactor => 8 + width_if(version >= 1, 4),
        BlockKind::ImpactReactor => 8 + width_if(version >= 1, 4),
        BlockKind::VariableReactor => 16 + width_if(version >= 1, 4),
        BlockKind::HeaterGenerator => 4,
        BlockKind::Drill => width_if(version >= 1, 8),
        BlockKind::Unloader => if version == 1 {
            2
        } else {
            1
        },
        BlockKind::TractorBeamTurret => 4,
        BlockKind::PointDefenseTurret => 4,
        BlockKind::ContinuousTurret => width_if(version >= 1, 8) + width_if(version >= 3, 4),
        BlockKind::RepairTurret => 4,
        BlockKind::ItemSource => 2,
        BlockKind::LiquidSource => 2,
        BlockKind::LightBlock => 4,
        BlockKind::LaunchPad => 4,
        BlockKind::Accelerator => 4,
        BlockKind::Switch => 1,
        BlockKind::Generator => 8,
        BlockKind::StackRouter => 2,
        BlockKind::LiquidTurret => width_if(version >= 1, 8),
        BlockKind::PowerTurret => width_if(version >= 1, 8),
        BlockKind::LaserTurret => width_if(version >= 1, 8),
        BlockKind::Core => width_if(version >= 1, 8),
        _ => 0,
    }
}

/// `value` where `cond` holds, and nothing where it does not.
pub open spec fn value_if<T>(cond: bool, value: T) -> Option<T> {
    if cond {
        Some(value)
    } else {
        None
    }
}

/// What is kept of the own state of a block of kind `kind` whose bytes start
/// at `pos`, for the kinds of fixed width; nothing for the kinds whose state
/// is read past.
pub open spec fn fixed_value(s: Seq<u8>, pos: int, kind: BlockKind, version: u8) -> Option<
    SpecificBlockView,
> {
    match kind {
        BlockKind::Door => Some(SpecificBlockView::Door { open: bool_at(s, pos) }),
        BlockKind::ShieldWall => Some(SpecificBlockView::ShieldWall { shield: float_at(s, pos) }),
        BlockKind::MendProjector => Some(
            SpecificBlockView::MendProjector {
                heat: float_at(s, pos),
                phase_heat: float_at(s, pos + 4),
            },
        ),
        BlockKind::OverdriveProjector => Some(
            SpecificBlockView::OverdriveProjector {
                heat: float_at(s, pos),
                phase_heat: float_at(s, pos + 4),
            },
        ),
        BlockKind::ForceProjector => Some(
            SpecificBlockView::ForceProjector {
                broken: bool_at(s, pos),
                buildup: float_at(s, pos + 1),
                radius_scale: float_at(s, pos + 5),
                warmup: float_at(s, pos + 9),
                phase_heat: float_at(s, pos + 13),
            },
        ),
        BlockKind::Radar => Some(SpecificBlockView::Radar { progress: float_at(s, pos) }),
        BlockKind::BaseShield => Some(
            SpecificBlockView::BaseShield {
                smooth_radius: float_at(s, pos),
                broken: bool_at(s, pos + 4),
            },
        ),
        BlockKind::StackConveyor => Some(
            SpecificBlockView::StackConveyor {
                link: u32_at(s, pos),
                cooldown: float_at(s, pos + 4),
            },
        ),
        BlockKind::Duct => Some(
            SpecificBlockView::Duct { received_direction: value_if(version >= 1, s[pos]) },
        ),
        BlockKind::DuctRouter => Some(
            SpecificBlockView::DuctRouter { sort_item: value_if(version >= 1, i16_at(s, pos)) },
        ),
        BlockKind::DirectionalUnloader => Some(
            SpecificBlockView::DirectionalUnloader {
                item_id: i16_at(s, pos),
                offset: i16_at(s, pos + 2),
            },
        ),
        BlockKind::UnitCargoLoader => Some(
            SpecificBlockView::UnitCargoLoader { unit_id: u32_at(s, pos) },
        ),
        BlockKind::UnitCargoUnloadPoint => Some(
            SpecificBlockView::UnitCargoUnloadPoint {
                item_id: i16_at(s, pos),
                stale: bool_at(s, pos + 2),
            },
        ),
        BlockKind::HeaterGenerator => Some(
            SpecificBlockView::HeaterGenerator { heat: float_at(s, pos) },
        ),
        BlockKind::Unloader => Some(
            SpecificBlockView::Unloader {
                item_id: if version == 1 {
                    i16_at(s, pos)
                } else {
                    s[pos] as i16
                },
            },
        ),
        BlockKind::TractorBeamTurret => Some(
            SpecificBlockView::TractorBeamTurret { rotation: float_at(s, pos) },
        ),
        BlockKind::PointDefenseTurret => Some(
            SpecificBlockView::PointDefenseTurret { rotation: float_at(s, pos) },
        ),
        BlockKind::ContinuousTurret => Some(
            SpecificBlockView::ContinuousTurret {
                reload_counter: value_if(version >= 1, float_at(s, pos)),
                rotation: value_if(version >= 1, float_at(s, pos + 4)),
                last_length: value_if(version >= 3, float_at(s, pos + 8)),
            },
        ),
        BlockKind::RepairTurret => Some(
            SpecificBlockView::RepairTurret { rotation: float_at(s, pos) },
        ),
        BlockKind::ItemSource => Some(SpecificBlockView::ItemSource { item_id: i16_at(s, pos) }),
        BlockKind::LiquidSource => Some(
            SpecificBlockView::LiquidSource { liquid_id: i16_at(s, pos) },
        ),
        BlockKind::LightBlock => Some(SpecificBlockView::LightBlock { color: u32_at(s, pos) }),
        BlockKind::Accelerator => Some(
            SpecificBlockView::Accelerator { progress: float_at(s, pos) },
        ),
        BlockKind::Switch => Some(SpecificBlockView::Switch { enabled: bool_at(s, pos) }),
        BlockKind::LiquidTurret => value_if(
            version >= 1,
            SpecificBlockView::LiquidTurret {
                reload_counter: float_at(s, pos),
                rotation: float_at(s, pos + 4),
            },
        ),
        BlockKind::PowerTurret => value_if(
            version >= 1,
            SpecificBlockView::PowerTurret {
                reload_counter: float_at(s, pos),
                rotation: float_at(s, pos + 4),
            },
        ),
        BlockKind::LaserTurret => value_if(
            version >= 1,
            SpecificBlockView::LaserTurret {
                reload_counter: float_at(s, pos),
                rotation: float_at(s, pos + 4),
            },
        ),
        _ => None,
    }
}

/// The own state of a block of a kind of fixed width, from `pos`.
pub open spec fn parse_fixed(
    s: Seq<u8>,
    pos: int,
    kind: BlockKind,
    cultivator: bool,
    version: u8,
) -> Parsed<Option<SpecificBlockView>> {
    if pos + fixed_width(kind, cultivator, version) > s.len() {
        Err(PacketError::UnexpectedEnd)
    } else {
        Ok((fixed_value(s, pos, kind, version), pos + fixed_width(kind, cultivator, version)))
    }
}

fn fixed_width_of(kind: BlockKind, cultivator: bool, version: u8) -> (w: usize)
    ensures
        w == fixed_width(kind, cultivator, version),
        w <= 24,
{
    let extra: usize = if cultivator {
        4
    } else {
        0
    };
    let v1: usize = if version >= 1 {
        1
    } else {
        0
    };
    match kind {
        BlockKind::Crafter => 8 + extra + (if version == 1 {
            4
        } else {
            0
        }),
        BlockKind::Separator => 12 + extra,
        BlockKind::HeatProducer => 12 + extra + (if version == 1 {
            4
        } else {
            0
        }),
        BlockKind::Door | BlockKind::Switch => 1,
        BlockKind::ShieldWall | BlockKind::Radar | BlockKind::DirectionalUnloader
        | BlockKind::UnitCargoLoader | BlockKind::HeaterGenerator | BlockKind::TractorBeamTurret
        | BlockKind::PointDefenseTurret | BlockKind::RepairTurret | BlockKind::LightBlock
        | BlockKind::LaunchPad | BlockKind::Accelerator => 4,
        BlockKind::MendProjector | BlockKind::OverdriveProjector | BlockKind::StackConveyor
        | BlockKind::Generator => 8,
        BlockKind::ForceProjector => 17,
        BlockKind::BaseShield => 5,
        BlockKind::Duct => v1,
        BlockKind::DuctRouter => 2 * v1,
        BlockKind::UnitCargoUnloadPoint => 3,
        BlockKind::NuclearReactor | BlockKind::ImpactReactor => 8 + 4 * v1,
        BlockKind::VariableReactor => 16 + 4 * v1,
        BlockKind::Drill | BlockKind::LiquidTurret | BlockKind::PowerTurret
        | BlockKind::LaserTurret | BlockKind::Core => 8 * v1,
        BlockKind::Unloader => if version == 1 {
            2
        } else {
            1
        },
        BlockKind::ContinuousTurret => 8 * v1 + (if version >= 3 {
            4
        } else {
            0
        }),
        BlockKind::ItemSource | BlockKind::LiquidSource | BlockKind::StackRouter => 2,
        _ => 0,
    }
}

fn read_fixed(reader: &mut Reader, kind: BlockKind, cultivator: bool, version: u8) -> (r: Result<
    Option<SpecificBlockData>,
    PacketError,
>)
    requires
        old(reader).wf(),
    ensures
        decoded(
            r,
            old(reader),
            final(reader),
            parse_fixed(old(reader).data(), old(reader).position(), kind, cultivator, version),
        ),
{
    let width = fixed_width_of(kind, cultivator, version);
    reader.need(width)?;
    let value = match kind {
        BlockKind::Door => Some(SpecificBlockData::Door { open: reader.bool() }),
        BlockKind::ShieldWall => Some(SpecificBlockData::ShieldWall { shield: reader.float() }),
        BlockKind::MendProjector => Some(
            SpecificBlockData::MendProjector { heat: reader.float(), phase_heat: reader.float() },
        ),
        BlockKind::OverdriveProjector => Some(
            SpecificBlockData::OverdriveProjector {
                heat: reader.float(),
                phase_heat: reader.float(),
            },
        ),
        BlockKind::ForceProjector => Some(
            SpecificBlockData::ForceProjector {
                broken: reader.bool(),
                buildup: reader.float(),
                radius_scale: reader.float(),
                warmup: reader.float(),
                phase_heat: reader.float(),
            },
        ),
        BlockKind::Radar => Some(SpecificBlockData::Radar { progress: reader.float() }),
        BlockKind::BaseShield => Some(
            SpecificBlockData::BaseShield { smooth_radius: reader.float(), broken: reader.bool() },
        ),
        BlockKind::StackConveyor => Some(
            SpecificBlockData::StackConveyor { link: reader.int32(), cooldown: reader.float() },
        ),
        BlockKind::Duct => {
            let received_direction = if version >= 1 {
                Some(reader.byte())
            } else {
                None
            };
            Some(SpecificBlockData::Duct { received_direction })
        },
        BlockKind::DuctRouter => {
            let sort_item = if version >= 1 {
                Some(reader.short())
            } else {
                None
            };
            Some(SpecificBlockData::DuctRouter { sort_item })
        },
        BlockKind::DirectionalUnloader => Some(
            SpecificBlockData::DirectionalUnloader {
                item_id: reader.short(),
                offset: reader.short(),
            },
        ),
        BlockKind::UnitCargoLoader => Some(
            SpecificBlockData::UnitCargoLoader { unit_id: reader.int32() },
        ),
        BlockKind::UnitCargoUnloadPoint => Some(
            SpecificBlockData::UnitCargoUnloadPoint {
                item_id: reader.short(),
                stale: reader.bool(),
            },
        ),
        BlockKind::HeaterGenerator => Some(
            SpecificBlockData::HeaterGenerator { heat: reader.float() },
        ),
        BlockKind::Unloader => {
            let item_id = if version == 1 {
                reader.short()
            } else {
                reader.byte() as i16
            };
            Some(SpecificBlockData::Unloader { item_id })
        },
        BlockKind::TractorBeamTurret => Some(
            SpecificBlockData::TractorBeamTurret { rotation: reader.float() },
        ),
        BlockKind::PointDefenseTurret => Some(
            SpecificBlockData::PointDefenseTurret { rotation: reader.float() },
        ),
        BlockKind::ContinuousTurret => {
            let reload_counter = if version >= 1 {
                Some(reader.float())
            } else {
                None
            };
            let rotation = if version >= 1 {
                Some(reader.float())
            } else {
                None
            };
            let last_length = if version >= 3 {
                Some(reader.float())
            } else {
                None
            };
            Some(SpecificBlockData::ContinuousTurret { reload_counter, rotation, last_length })
        },
        BlockKind::RepairTurret => Some(
            SpecificBlockData::RepairTurret { rotation: reader.float() },
        ),
        BlockKind::ItemSource => Some(SpecificBlockData::ItemSource { item_id: reader.short() }),
        BlockKind::LiquidSource => Some(
            SpecificBlockData::LiquidSource { liquid_id: reader.short() },
        ),
        BlockKind::LightBlock => Some(SpecificBlockData::LightBlock { color: reader.int32() }),
        BlockKind::Accelerator => Some(
            SpecificBlockData::Accelerator { progress: reader.float() },
        ),
        BlockKind::Switch => Some(SpecificBlockData::Switch { enabled: reader.bool() }),
        BlockKind::LiquidTurret => if version >= 1 {
            Some(
                SpecificBlockData::LiquidTurret {
                    reload_counter: reader.float(),
                    rotation: reader.float(),
                },
            )
        } else {
            None
        },
        BlockKind::PowerTurret => if version >= 1 {
            Some(
                SpecificBlockData::PowerTurret {
                    reload_counter: reader.float(),
                    rotation: reader.float(),
                },
            )
        } else {
            None
        },
        BlockKind::LaserTurret => if version >= 1 {
            Some(
                SpecificBlockData::LaserTurret {
                    reload_counter: reader.float(),
                    rotation: reader.float(),
                },
            )
        } else {
            None
        },
        _ => {
            reader.bytes(width);
            None
        },
    };
    Ok(value)
}

/// The entries of one directional queue that are kept: the first `n` of the
/// 64-bit numbers that stand one behind the other from `pos`.
pub open spec fn queue_values(s: Seq<u8>, pos: int, n: nat) -> Seq<u64> {
    Seq::new(n, |j: int| u64_at(s, pos + 8 * j))
}

/// The lesser of a queue's length and the capacity of its buffer.
pub open spec fn kept_count(length: u8, capacity: u8) -> nat {
    if length < capacity {
        length as nat
    } else {
        capacity as nat
    }
}

/// One directional queue from `pos`: an index, a length, and that many
/// 64-bit entries, of which the first `capacity` are kept.
pub open spec fn parse_queue(s: Seq<u8>, pos: int, capacity: u8) -> Parsed<(u8, Seq<u64>)> {
    if pos + 2 > s.len() {
        Err(PacketError::UnexpectedEnd)
    } else if pos + 2 + 8 * s[pos + 1] > s.len() {
        Err(PacketError::UnexpectedEnd)
    } else {
        Ok(
            (
                (s[pos], queue_values(s, pos + 2, kept_count(s[pos + 1], capacity))),
                pos + 2 + 8 * s[pos + 1],
            ),
        )
    }
}

/// The four directional queues of a buffer, one behind the other from `pos`.
pub open spec fn parse_buffer(s: Seq<u8>, pos: int, capacity: u8) -> Parsed<
    DirectionalItemBufferView,
> {
    match parse_queue(s, pos, capacity) {
        Err(e) => Err(e),
        Ok((q0, p1)) => match parse_queue(s, p1, capacity) {
            Err(e) => Err(e),
            Ok((q1, p2)) => match parse_queue(s, p2, capacity) {
                Err(e) => Err(e),
                Ok((q2, p3)) => match parse_queue(s, p3, capacity) {
                    Err(e) => Err(e),
                    Ok((q3, p4)) => Ok(
                        (
                            DirectionalItemBufferView {
                                indexes: seq![q0.0, q1.0, q2.0, q3.0],
                                values: seq![q0.1, q1.1, q2.1, q3.1],
                                capacity,
                            },
                            p4,
                        ),
                    ),
                },
            },
        },
    }
}

fn read_queue(reader: &mut Reader, capacity: u8) -> (r: Result<(u8, Vec<u64>), PacketError>)
    requires
        old(reader).wf(),
    ensures
        final(reader).kept(old(reader)),
        match parse_queue(old(reader).data(), old(reader).position(), capacity) {
            Ok((v, next)) => r is Ok && r->Ok_0.0 == v.0 && r->Ok_0.1@ == v.1
                && final(reader).position() == next,
            Err(e) => r is Err && r->Err_0 == e,
        },
{
    reader.need(2)?;
    let index = reader.byte();
    let length = reader.byte();
    reader.need(8 * (length as usize))?;
    let ghost s = reader.data();
    let ghost start = reader.position();
    let mut values: Vec<u64> = Vec::new();
    let mut j: u8 = 0;
    while j < length
        invariant
            j <= length,
            reader.wf(),
            reader.data() == s,
            reader.position() == start + 8 * j,
            start + 8 * length <= s.len(),
            values@ == queue_values(s, start, kept_count(j, capacity)),
        decreases length - j,
    {
        let value = reader.long();
        if j < capacity {
            values.push(value);
        }
        j += 1;
        assert(values@ =~= queue_values(s, start, kept_count(j, capacity)));
    }
    Ok((index, values))
}

impl DirectionalItemBuffer {
    /// Reads the four queues of a buffer that keeps `capacity` entries of each.
    pub fn read(reader: &mut Reader, capacity: u8) -> (r: Result<
        DirectionalItemBuffer,
        PacketError,
    >)
        requires
            old(reader).wf(),
        ensures
            decoded(
                r,
                old(reader),
                final(reader),
                parse_buffer(old(reader).data(), old(reader).position(), capacity),
            ),
    {
        let q0 = read_queue(reader, capacity)?;
        let q1 = read_queue(reader, capacity)?;
        let q2 = read_queue(reader, capacity)?;
        let q3 = read_queue(reader, capacity)?;
        let mut indexes: Vec<u8> = Vec::new();
        indexes.push(q0.0);
        indexes.push(q1.0);
        indexes.push(q2.0);
        indexes.push(q3.0);
        let ghost v0 = q0.1@;
        let ghost v1 = q1.1@;
        let ghost v2 = q2.1@;
        let ghost v3 = q3.1@;
        let mut values: Vec<Vec<u64>> = Vec::new();
        values.push(q0.1);
        values.push(q1.1);
        values.push(q2.1);
        values.push(q3.1);
        proof {
            assert(indexes@ =~= seq![q0.0, q1.0, q2.0, q3.0]);
            assert forall|i: int| 0 <= i < 4 implies #[trigger] values.deep_view()[i] == seq![
                v0,
                v1,
                v2,
                v3,
            ][i] by {
                assert(values@[i].deep_view() =~= values@[i]@);
            }
            assert(values.deep_view() =~= seq![v0, v1, v2, v3]);
        }
        Ok(DirectionalItemBuffer { indexes, values, capacity })
    }
}

/// The item of a conveyor in the four bytes from `pos`. Version 0 packs the
/// item, `x` and `y` into the four bytes of one 32-bit word, from the top;
/// later versions send a signed 16-bit item and two bytes.
pub open spec fn conveyor_item_at(s: Seq<u8>, pos: int, version: u8) -> ConveyorItem {
    if version == 0 {
        ConveyorItem {
            item_id: (u32_at(s, pos) / 16777216) as u32,
            x: (((u32_at(s, pos) / 65536) % 256) / 128) as u32,
            y: ((((u32_at(s, pos) / 256) % 256) + 128) / 255) as u32,
        }
    } else {
        ConveyorItem {
            item_id: unsigned32(i16_at(s, pos) as int) as u32,
            x: (s[pos + 2] / 127) as u32,
            y: ((s[pos + 3] + 128) / 255) as u32,
        }
    }
}

/// `n` conveyor items, one behind the other from `pos`.
pub open spec fn conveyor_items_at(s: Seq<u8>, pos: int, n: nat, version: u8) -> Seq<
    ConveyorItem,
> {
    Seq::new(n, |i: int| conveyor_item_at(s, pos + 4 * i, version))
}

/// The own state of a conveyor from `pos`: an unsigned 32-bit count, then
/// that many items.
pub open spec fn parse_conveyor(s: Seq<u8>, pos: int, version: u8) -> Parsed<
    Option<SpecificBlockView>,
> {
    if pos + 4 > s.len() {
        Err(PacketError::UnexpectedEnd)
    } else if pos + 4 + 4 * u32_at(s, pos) > s.len() {
        Err(PacketError::UnexpectedEnd)
    } else {
        Ok(
            (
                Some(
                    SpecificBlockView::Conveyor {
                        items: conveyor_items_at(s, pos + 4, u32_at(s, pos) as nat, version),
                    },
                ),
                pos + 4 + 4 * u32_at(s, pos),
            ),
        )
    }
}

fn read_conveyor(reader: &mut Reader, version: u8) -> (r: Result<
    Option<SpecificBlockData>,
    PacketError,
>)
    requires
        old(reader).wf(),
    ensures
        decoded(
            r,
            old(reader),
            final(reader),
            parse_conveyor(old(reader).data(), old(reader).position(), version),
        ),
{
    reader.need(4)?;
    let amount = reader.int32() as usize;
    reader.need_items(amount, 4)?;
    let ghost s = reader.data();
    let ghost start = reader.position();
    let mut items: Vec<ConveyorItem> = Vec::new();
    let mut i: usize = 0;
    while i < amount
        invariant
            i <= amount,
            reader.wf(),
            reader.data() == s,
            reader.position() == start + 4 * i,
            start + amount * 4 <= s.len(),
            items@ == conveyor_items_at(s, start, i as nat, version),
        decreases amount - i,
    {
        let item = if version == 0 {
            let val = reader.int32();
            ConveyorItem {
                item_id: val / 16777216,
                x: ((val / 65536) % 256) / 128,
                y: (((val / 256) % 256) + 128) / 255,
            }
        } else {
            let id = reader.short();
            let item_id: u32 = if id < 0 {
                (id as i64 + 4294967296) as u32
            } else {
                id as u32
            };
            let x = reader.byte();
            let y = reader.byte();
            ConveyorItem { item_id, x: (x / 127) as u32, y: (y as u32 + 128) / 255 }
        };
        items.push(item);
        i += 1;
        assert(items@ =~= conveyor_items_at(s, start, i as nat, version));
    }
    Ok(Some(SpecificBlockData::Conveyor { items }))
}

/// The offset behind the own state of a bridge that starts at `pos`: a link,
/// a warm-up, a count in one byte and that many incoming links; from version
/// 1 one byte more; and for a buffered bridge an index, a length and that
/// many 64-bit entries.
pub open spec fn bridge_end(s: Seq<u8>, pos: int, buffered: bool, version: u8) -> Result<
    int,
    PacketError,
> {
    if pos + 9 > s.len() {
        Err(PacketError::UnexpectedEnd)
    } else {
        let p1 = pos + 9 + 4 * s[pos + 8] + width_if(version >= 1, 1);
        if p1 > s.len() {
            Err(PacketError::UnexpectedEnd)
        } else if !buffered {
            Ok(p1)
        } else if p1 + 2 > s.len() {
            Err(PacketError::UnexpectedEnd)
        } else if p1 + 2 + 8 * s[p1 + 1] > s.len() {
            Err(PacketError::UnexpectedEnd)
        } else {
            Ok(p1 + 2 + 8 * s[p1 + 1])
        }
    }
}

/// A state that is read past: nothing is kept, and the cursor stands at the
/// offset `end` or the decoder fails as `end` says.
pub open spec fn passed(end: Result<int, PacketError>) -> Parsed<Option<SpecificBlockView>> {
    match end {
        Err(e) => Err(e),
        Ok(next) => Ok((None, next)),
    }
}

fn read_bridge(reader: &mut Reader, buffered: bool, version: u8) -> (r: Result<
    Option<SpecificBlockData>,
    PacketError,
>)
    requires
        old(reader).wf(),
    ensures
        decoded(
            r,
            old(reader),
            final(reader),
            passed(bridge_end(old(reader).data(), old(reader).position(), buffered, version)),
        ),
{
    reader.need(9)?;
    reader.skip(8);
    let links = reader.byte() as usize;
    let extra: usize = if version >= 1 {
        1
    } else {
        0
    };
    reader.need(4 * links + extra)?;
    reader.skip(4 * links + extra);
    if buffered {
        reader.need(2)?;
        reader.byte();
        let length = reader.byte() as usize;
        reader.need(8 * length)?;
        reader.skip(8 * length);
    }
    Ok(None)
}

/// An optional buffer from `pos`: there when `present`.
pub open spec fn parse_buffer_if(s: Seq<u8>, pos: int, present: bool, capacity: u8) -> Parsed<
    Option<DirectionalItemBufferView>,
> {
    if !present {
        Ok((None, pos))
    } else {
        match parse_buffer(s, pos, capacity) {
            Err(e) => Err(e),
            Ok((b, next)) => Ok((Some(b), next)),
        }
    }
}

fn read_buffer_if(reader: &mut Reader, present: bool, capacity: u8) -> (r: Result<
    Option<DirectionalItemBuffer>,
    PacketError,
>)
    requires
        old(reader).wf(),
    ensures
        decoded(
            r,
            old(reader),
            final(reader),
            parse_buffer_if(old(reader).data(), old(reader).position(), present, capacity),
        ),
{
    if present {
        Ok(Some(DirectionalItemBuffer::read(reader, capacity)?))
    } else {
        Ok(None)
    }
}

/// The own state of a sorter from `pos`: the item it sorts, and in version 1
/// a buffer of capacity 20.
pub open spec fn parse_sorter(s: Seq<u8>, pos: int, version: u8) -> Parsed<
    Option<SpecificBlockView>,
> {
    if pos + 2 > s.len() {
        Err(PacketError::UnexpectedEnd)
    } else {
        match parse_buffer_if(s, pos + 2, version == 1, 20) {
            Err(e) => Err(e),
            Ok((buffer, next)) => Ok(
                (Some(SpecificBlockView::Sorter { sort_item: i16_at(s, pos), buffer }), next),
            ),
        }
    }
}

/// The own state of an overflow gate from `pos`: in version 1 a buffer of
/// capacity 25, in version 3 four bytes that are read past.
pub open spec fn parse_overflow_gate(s: Seq<u8>, pos: int, version: u8) -> Parsed<
    Option<SpecificBlockView>,
> {
    match parse_buffer_if(s, pos, version == 1, 25) {
        Err(e) => Err(e),
        Ok((buffer, next)) => if next + width_if(version == 3, 4) > s.len() {
            Err(PacketError::UnexpectedEnd)
        } else {
            Ok(
                (
                    Some(SpecificBlockView::OverflowGate { buffer }),
                    next + width_if(version == 3, 4),
                ),
            )
        },
    }
}

/// The own state of a mass driver from `pos`: a link, a rotation and a state
/// byte, which must be 0, 1 or 2.
pub open spec fn parse_mass_driver(s: Seq<u8>, pos: int) -> Parsed<Option<SpecificBlockView>> {
    if pos + 9 > s.len() {
        Err(PacketError::UnexpectedEnd)
    } else {
        match MassDriverState::of_code(s[pos + 8]) {
            None => Err(PacketError::ProtocolError),
            Some(state) => Ok(
                (
                    Some(
                        SpecificBlockView::MassDriver {
                            link: u32_at(s, pos),
                            rotation: float_at(s, pos + 4),
                            state,
                        },
                    ),
                    pos + 9,
                ),
            ),
        }
    }
}

/// The offset behind the own state of an item turret that starts at `pos`:
/// two numbers, a count in one byte, and that many pairs of 16-bit numbers.
pub open spec fn item_turret_end(s: Seq<u8>, pos: int) -> Result<int, PacketError> {
    if pos + 9 > s.len() {
        Err(PacketError::UnexpectedEnd)
    } else if pos + 9 + 4 * s[pos + 8] > s.len() {
        Err(PacketError::UnexpectedEnd)
    } else {
        Ok(pos + 9 + 4 * s[pos + 8])
    }
}

/// The own state of a message block from `pos`: a length-prefixed string.
pub open spec fn parse_message(s: Seq<u8>, pos: int) -> Parsed<Option<SpecificBlockView>> {
    if pos + 2 > s.len() {
        Err(PacketError::UnexpectedEnd)
    } else {
        Ok((Some(SpecificBlockView::Message { message: string_at(s, pos).0 }), string_at(s, pos).1))
    }
}

/// `n` 64-bit IEEE-754 numbers, one behind the other from `pos`.
pub open spec fn doubles_at(s: Seq<u8>, pos: int, n: nat) -> Seq<Double> {
    Seq::new(n, |i: int| Double { bits: u64_at(s, pos + 8 * i) })
}

/// The own state of a memory block from `pos`: an unsigned 32-bit count,
/// then that many 64-bit IEEE-754 numbers.
pub open spec fn parse_memory(s: Seq<u8>, pos: int) -> Parsed<Option<SpecificBlockView>> {
    if pos + 4 > s.len() {
        Err(PacketError::UnexpectedEnd)
    } else if pos + 4 + 8 * u32_at(s, pos) > s.len() {
        Err(PacketError::UnexpectedEnd)
    } else {
        Ok(
            (
                Some(
                    SpecificBlockView::Memory {
                        memory: doubles_at(s, pos + 4, u32_at(s, pos) as nat),
                    },
                ),
                pos + 4 + 8 * u32_at(s, pos),
            ),
        )
    }
}

fn read_memory(reader: &mut Reader) -> (r: Result<Option<SpecificBlockData>, PacketError>)
    requires
        old(reader).wf(),
    ensures
        decoded(
            r,
            old(reader),
            final(reader),
            parse_memory(old(reader).data(), old(reader).position()),
        ),
{
    reader.need(4)?;
    let amount = reader.int32() as usize;
    reader.need_items(amount, 8)?;
    let ghost s = reader.data();
    let ghost start = reader.position();
    let mut memory: Vec<Double> = Vec::new();
    let mut i: usize = 0;
    while i < amount
        invariant
            i <= amount,
            reader.wf(),
            reader.data() == s,
            reader.position() == start + 8 * i,
            start + amount * 8 <= s.len(),
            memory@ == doubles_at(s, start, i as nat),
        decreases amount - i,
    {
        memory.push(reader.double());
        i += 1;
        assert(memory@ =~= doubles_at(s, start, i as nat));
    }
    Ok(Some(SpecificBlockData::Memory { memory }))
}

/// The offset behind the own state of a logic display that starts at `pos`:
/// from version 1 a flag, and where it is set nine 32-bit numbers.
pub open spec fn display_end(s: Seq<u8>, pos: int, version: u8) -> Result<int, PacketError> {
    if version < 1 {
        Ok(pos)
    } else if pos + 1 > s.len() {
        Err(PacketError::UnexpectedEnd)
    } else if !bool_at(s, pos) {
        Ok(pos + 1)
    } else if pos + 37 > s.len() {
        Err(PacketError::UnexpectedEnd)
    } else {
        Ok(pos + 37)
    }
}

/// The own state of a canvas from `pos`: an unsigned 32-bit length, then
/// that many bytes.
pub open spec fn parse_canvas(s: Seq<u8>, pos: int) -> Parsed<Option<SpecificBlockView>> {
    if pos + 4 > s.len() {
        Err(PacketError::UnexpectedEnd)
    } else if pos + 4 + u32_at(s, pos) > s.len() {
        Err(PacketError::UnexpectedEnd)
    } else {
        Ok(
            (
                Some(
                    SpecificBlockView::Canvas {
                        data: s.subrange(pos + 4, pos + 4 + u32_at(s, pos)),
                    },
                ),
                pos + 4 + u32_at(s, pos),
            ),
        )
    }
}

/// The offset behind the own state of a block under construction that
/// starts at `pos`: a progress, two 16-bit ids and a count in one byte;
/// unless the count is 255, that many entries of two 32-bit numbers, and
/// from version 1 of three.
pub open spec fn build_end(s: Seq<u8>, pos: int, version: u8) -> Result<int, PacketError> {
    if pos + 9 > s.len() {
        Err(PacketError::UnexpectedEnd)
    } else if s[pos + 8] == 255 {
        Ok(pos + 9)
    } else if pos + 9 + s[pos + 8] * (8 + width_if(version >= 1, 4)) > s.len() {
        Err(PacketError::UnexpectedEnd)
    } else {
        Ok(pos + 9 + s[pos + 8] * (8 + width_if(version >= 1, 4)))
    }
}

/// One variable of a logic block from `pos`: a length-prefixed name and a
/// tagged object.
pub open spec fn parse_var(s: Seq<u8>, pos: int) -> Parsed<()> {
    if pos + 2 > s.len() {
        Err(PacketError::UnexpectedEnd)
    } else {
        match parse_object(s, string_at(s, pos).1) {
            Err(e) => Err(e),
            Ok((_, next)) => Ok(((), next)),
        }
    }
}

/// The decoder of one variable, as a value.
pub open spec fn var_item() -> spec_fn(Seq<u8>, int) -> Parsed<()> {
    |s: Seq<u8>, p: int| parse_var(s, p)
}

/// The offset behind the program of a logic block that starts at `pos`. From
/// version 1 it is a 32-bit length and that many bytes; in version 0 a
/// length-prefixed string, a signed 16-bit count and that many 32-bit links.
pub open spec fn logic_code_end(s: Seq<u8>, pos: int, version: u8) -> Result<int, PacketError> {
    if version >= 1 {
        if pos + 4 > s.len() {
            Err(PacketError::UnexpectedEnd)
        } else if pos + 4 + u32_at(s, pos) > s.len() {
            Err(PacketError::UnexpectedEnd)
        } else {
            Ok(pos + 4 + u32_at(s, pos))
        }
    } else if pos + 2 > s.len() {
        Err(PacketError::UnexpectedEnd)
    } else {
        let p1 = string_at(s, pos).1;
        if p1 + 2 > s.len() {
            Err(PacketError::UnexpectedEnd)
        } else if p1 + 2 + 4 * count_of(i16_at(s, p1) as int) > s.len() {
            Err(PacketError::UnexpectedEnd)
        } else {
            Ok(p1 + 2 + 4 * count_of(i16_at(s, p1) as int))
        }
    }
}

/// The offset behind the closing part of a logic block that starts at `pos`:
/// for the world processor from version 2 a 16-bit number; from version 3 a
/// tagged-optional string and a 16-bit icon.
pub open spec fn logic_tail_end(s: Seq<u8>, pos: int, world_processor: bool, version: u8) -> Result<
    int,
    PacketError,
> {
    let p1 = pos + width_if(world_processor && version >= 2, 2);
    if p1 > s.len() {
        Err(PacketError::UnexpectedEnd)
    } else if version < 3 {
        Ok(p1)
    } else if prefixed_string_at(s, p1).1 + 2 > s.len() {
        Err(PacketError::UnexpectedEnd)
    } else {
        Ok(prefixed_string_at(s, p1).1 + 2)
    }
}

/// The offset behind the own state of a logic block that starts at `pos`:
/// the program, a 32-bit count and that many variables, a 32-bit memory size
/// and eight bytes for each cell, and the closing part.
pub open spec fn logic_end(s: Seq<u8>, pos: int, world_processor: bool, version: u8) -> Result<
    int,
    PacketError,
> {
    match logic_code_end(s, pos, version) {
        Err(e) => Err(e),
        Ok(p1) => if p1 + 4 > s.len() {
            Err(PacketError::UnexpectedEnd)
        } else {
            match repeat(var_item(), s, p1 + 4, u32_at(s, p1) as nat) {
                Err(e) => Err(e),
                Ok((_, p2)) => if p2 + 4 > s.len() {
                    Err(PacketError::UnexpectedEnd)
                } else if p2 + 4 + 8 * u32_at(s, p2) > s.len() {
                    Err(PacketError::UnexpectedEnd)
                } else {
                    logic_tail_end(s, p2 + 4 + 8 * u32_at(s, p2), world_processor, version)
                },
            }
        },
    }
}

/// What a decoder that keeps nothing returned and where it left the cursor,
/// held against the offset that the bytes give.
pub open spec fn skipped(
    r: Result<(), PacketError>,
    before: &Reader,
    after: &Reader,
    want: Result<int, PacketError>,
) -> bool {
    &&& after.kept(before)
    &&& match want {
        Ok(next) => r is Ok && after.position() == next,
        Err(e) => r is Err && r->Err_0 == e,
    }
}

fn read_logic_code(reader: &mut Reader, version: u8) -> (r: Result<(), PacketError>)
    requires
        old(reader).wf(),
    ensures
        skipped(
            r,
            old(reader),
            final(reader),
            logic_code_end(old(reader).data(), old(reader).position(), version),
        ),
{
    if version >= 1 {
        reader.need(4)?;
        let compl = reader.int32() as usize;
        reader.need(compl)?;
        reader.skip(compl);
    } else {
        reader.need(2)?;
        read_string(reader);
        reader.need(2)?;
        let total = reader.short();
        let count: usize = if total < 0 {
            0
        } else {
            total as usize
        };
        reader.need(4 * count)?;
        reader.skip(4 * count);
    }
    Ok(())
}

fn read_vars(reader: &mut Reader, count: usize) -> (r: Result<(), PacketError>)
    requires
        old(reader).wf(),
    ensures
        final(reader).kept(old(reader)),
        match repeat(var_item(), old(reader).data(), old(reader).position(), count as nat) {
            Ok((_, next)) => r is Ok && final(reader).position() == next,
            Err(e) => r is Err && r->Err_0 == e,
        },
{
    let ghost s = reader.data();
    let ghost start = reader.position();
    let ghost mut seen: Seq<()> = Seq::empty();
    let mut i: usize = 0;
    while i < count
        invariant
            i <= count,
            reader.kept(old(reader)),
            s == old(reader).data(),
            start == old(reader).position(),
            repeat(var_item(), s, start, i as nat) == Ok::<(Seq<()>, int), PacketError>(
                (seen, reader.position()),
            ),
        decreases count - i,
    {
        proof {
            if parse_var(s, reader.position()) is Err {
                lemma_repeat_fails(var_item(), s, start, (i + 1) as nat, count as nat);
            }
        }
        reader.need(2)?;
        read_string(reader);
        read_object_boxed(reader, true)?;
        proof {
            seen = seen.push(());
        }
        i += 1;
    }
    Ok(())
}

fn read_logic_tail(reader: &mut Reader, world_processor: bool, version: u8) -> (r: Result<
    (),
    PacketError,
>)
    requires
        old(reader).wf(),
    ensures
        skipped(
            r,
            old(reader),
            final(reader),
            logic_tail_end(old(reader).data(), old(reader).position(), world_processor, version),
        ),
{
    if world_processor && version >= 2 {
        reader.need(2)?;
        reader.short();
    }
    let ghost p1 = reader.position();
    assert(p1 == old(reader).position() + width_if(world_processor && version >= 2, 2));
    if version >= 3 {
        read_prefixed_string(reader);
        assert(reader.position() == prefixed_string_at(old(reader).data(), p1).1);
        reader.need(2)?;
        reader.unsigned_short();
    }
    Ok(())
}

fn read_logic(reader: &mut Reader, world_processor: bool, version: u8) -> (r: Result<
    (),
    PacketError,
>)
    requires
        old(reader).wf(),
    ensures
        skipped(
            r,
            old(reader),
            final(reader),
            logic_end(old(reader).data(), old(reader).position(), world_processor, version),
        ),
{
    read_logic_code(reader, version)?;
    reader.need(4)?;
    let varcount = reader.int32() as usize;
    read_vars(reader, varcount)?;
    reader.need(4)?;
    let memory = reader.int32() as usize;
    reader.need_items(memory, 8)?;
    let rest = reader.remaining();
    assert(memory * 8 <= rest);
    reader.skip(memory * 8);
    read_logic_tail(reader, world_processor, version)
}

/// The own state of a build turret from `pos`: a rotation, then a list of
/// plans counted by an unsigned 32-bit number.
pub open spec fn parse_build_turret(s: Seq<u8>, pos: int) -> Parsed<Option<SpecificBlockView>> {
    if pos + 4 > s.len() {
        Err(PacketError::UnexpectedEnd)
    } else {
        match parse_plans_queue(s, pos + 4) {
            Err(e) => Err(e),
            Ok((plans, next)) => Ok(
                (Some(SpecificBlockView::BuildTurret { rotation: float_at(s, pos), plans }), next),
            ),
        }
    }
}

/// The own state of a junction from `pos`: a buffer of capacity 6.
pub open spec fn parse_junction(s: Seq<u8>, pos: int) -> Parsed<Option<SpecificBlockView>> {
    match parse_buffer(s, pos, 6) {
        Err(e) => Err(e),
        Ok((buffer, next)) => Ok((Some(SpecificBlockView::Junction { buffer }), next)),
    }
}

/// The own state of a block of a kind that holds no payload, from `pos`.
/// `cultivator` and `world_processor` say whether the block bears that name.
#[verifier::opaque]
pub open spec fn parse_plain(
    s: Seq<u8>,
    pos: int,
    kind: BlockKind,
    cultivator: bool,
    world_processor: bool,
    version: u8,
) -> Parsed<Option<SpecificBlockView>> {
    match kind {
        BlockKind::BuildTurret => parse_build_turret(s, pos),
        BlockKind::Conveyor => parse_conveyor(s, pos, version),
        BlockKind::Junction => parse_junction(s, pos),
        BlockKind::ItemBridge => passed(bridge_end(s, pos, false, version)),
        BlockKind::BufferedItemBridge => passed(bridge_end(s, pos, true, version)),
        BlockKind::Sorter => parse_sorter(s, pos, version),
        BlockKind::OverflowGate => parse_overflow_gate(s, pos, version),
        BlockKind::MassDriver => parse_mass_driver(s, pos),
        BlockKind::ItemTurret => passed(item_turret_end(s, pos)),
        BlockKind::Message => parse_message(s, pos),
        BlockKind::Memory => parse_memory(s, pos),
        BlockKind::LogicDisplay => passed(display_end(s, pos, version)),
        BlockKind::LogicBlock => passed(logic_end(s, pos, world_processor, version)),
        BlockKind::Canvas => parse_canvas(s, pos),
        BlockKind::Build => passed(build_end(s, pos, version)),
        _ => parse_fixed(s, pos, kind, cultivator, version),
    }
}

fn read_build_turret(reader: &mut Reader) -> (r: Result<Option<SpecificBlockData>, PacketError>)
    requires
        old(reader).wf(),
    ensures
        decoded(
            r,
            old(reader),
            final(reader),
            parse_build_turret(old(reader).data(), old(reader).position()),
        ),
{
    reader.need(4)?;
    let rotation = reader.float();
    let plans = read_plans_queue(reader)?;
    Ok(Some(SpecificBlockData::BuildTurret { rotation, plans }))
}

fn read_junction(reader: &mut Reader) -> (r: Result<Option<SpecificBlockData>, PacketError>)
    requires
        old(reader).wf(),
    ensures
        decoded(
            r,
            old(reader),
            final(reader),
            parse_junction(old(reader).data(), old(reader).position()),
        ),
{
    let buffer = DirectionalItemBuffer::read(reader, 6)?;
    Ok(Some(SpecificBlockData::Junction { buffer }))
}

fn read_sorter(
    reader: &mut Reader,
    version: u8,
) -> (r: Result<Option<SpecificBlockData>, PacketError>)
    requires
        old(reader).wf(),
    ensures
        decoded(
            r,
            old(reader),
            final(reader),
            parse_sorter(old(reader).data(), old(reader).position(), version),
        ),
{
    reader.need(2)?;
    let sort_item = reader.short();
    let buffer = read_buffer_if(reader, version == 1, 20)?;
    Ok(Some(SpecificBlockData::Sorter { sort_item, buffer }))
}

fn read_overflow_gate(
    reader: &mut Reader,
    version: u8,
) -> (r: Result<Option<SpecificBlockData>, PacketError>)
    requires
        old(reader).wf(),
    ensures
        decoded(
            r,
            old(reader),
            final(reader),
            parse_overflow_gate(old(reader).data(), old(reader).position(), version),
        ),
{
    let buffer = read_buffer_if(reader, version == 1, 25)?;
    if version == 3 {
        reader.need(4)?;
        reader.int32();
    }
    Ok(Some(SpecificBlockData::OverflowGate { buffer }))
}

fn read_mass_driver(reader: &mut Reader) -> (r: Result<Option<SpecificBlockData>, PacketError>)
    requires
        old(reader).wf(),
    ensures
        decoded(
            r,
            old(reader),
            final(reader),
            parse_mass_driver(old(reader).data(), old(reader).position()),
        ),
{
    reader.need(9)?;
    let link = reader.int32();
    let rotation = reader.float();
    match MassDriverState::from_byte(reader.byte()) {
        Some(state) => Ok(Some(SpecificBlockData::MassDriver { link, rotation, state })),
        None => Err(PacketError::ProtocolError),
    }
}

fn read_item_turret(reader: &mut Reader) -> (r: Result<Option<SpecificBlockData>, PacketError>)
    requires
        old(reader).wf(),
    ensures
        decoded(
            r,
            old(reader),
            final(reader),
            passed(item_turret_end(old(reader).data(), old(reader).position())),
        ),
{
    reader.need(9)?;
    reader.skip(8);
    let amount = reader.byte() as usize;
    reader.need(4 * amount)?;
    reader.skip(4 * amount);
    Ok(None)
}

fn read_message(reader: &mut Reader) -> (r: Result<Option<SpecificBlockData>, PacketError>)
    requires
        old(reader).wf(),
    ensures
        decoded(
            r,
            old(reader),
            final(reader),
            parse_message(old(reader).data(), old(reader).position()),
        ),
{
    reader.need(2)?;
    Ok(Some(SpecificBlockData::Message { message: read_string(reader) }))
}

fn read_display(
    reader: &mut Reader,
    version: u8,
) -> (r: Result<Option<SpecificBlockData>, PacketError>)
    requires
        old(reader).wf(),
    ensures
        decoded(
            r,
            old(reader),
            final(reader),
            passed(display_end(old(reader).data(), old(reader).position(), version)),
        ),
{
    if version >= 1 {
        reader.need(1)?;
        let has_transform = reader.bool();
        if has_transform {
            reader.need(36)?;
            reader.skip(36);
        }
    }
    Ok(None)
}

fn read_canvas(reader: &mut Reader) -> (r: Result<Option<SpecificBlockData>, PacketError>)
    requires
        old(reader).wf(),
    ensures
        decoded(
            r,
            old(reader),
            final(reader),
            parse_canvas(old(reader).data(), old(reader).position()),
        ),
{
    reader.need(4)?;
    let length = reader.int32() as usize;
    reader.need(length)?;
    Ok(Some(SpecificBlockData::Canvas { data: reader.bytes(length) }))
}

fn read_build(
    reader: &mut Reader,
    version: u8,
) -> (r: Result<Option<SpecificBlockData>, PacketError>)
    requires
        old(reader).wf(),
    ensures
        decoded(
            r,
            old(reader),
            final(reader),
            passed(build_end(old(reader).data(), old(reader).position(), version)),
        ),
{
    reader.need(9)?;
    reader.skip(8);
    let acsize = reader.byte() as usize;
    if acsize != 255 {
        let each: usize = if version >= 1 {
            12
        } else {
            8
        };
        reader.need(acsize * each)?;
        reader.skip(acsize * each);
    }
    Ok(None)
}

fn read_plain(
    reader: &mut Reader,
    kind: BlockKind,
    cultivator: bool,
    world_processor: bool,
    version: u8,
) -> (r: Result<Option<SpecificBlockData>, PacketError>)
    requires
        old(reader).wf(),
    ensures
        decoded(
            r,
            old(reader),
            final(reader),
            parse_plain(
                old(reader).data(),
                old(reader).position(),
                kind,
                cultivator,
                world_processor,
                version,
            ),
        ),
{
    reveal(parse_plain);
    match kind {
        BlockKind::BuildTurret => read_build_turret(reader),
        BlockKind::Conveyor => read_conveyor(reader, version),
        BlockKind::Junction => read_junction(reader),
        BlockKind::ItemBridge => read_bridge(reader, false, version),
        BlockKind::BufferedItemBridge => read_bridge(reader, true, version),
        BlockKind::Sorter => read_sorter(reader, version),
        BlockKind::OverflowGate => read_overflow_gate(reader, version),
        BlockKind::MassDriver => read_mass_driver(reader),
        BlockKind::ItemTurret => read_item_turret(reader),
        BlockKind::Message => read_message(reader),
        BlockKind::Memory => read_memory(reader),
        BlockKind::LogicDisplay => read_display(reader, version),
        BlockKind::LogicBlock => {
            read_logic(reader, world_processor, version)?;
            Ok(None)
        },
        BlockKind::Canvas => read_canvas(reader),
        BlockKind::Build => read_build(reader, version),
        _ => read_fixed(reader, kind, cultivator, version),
    }
}

/// Whether the own state of a block of kind `kind` holds a payload.
pub open spec fn holds_payload(kind: BlockKind) -> bool {
    kind == BlockKind::UnitFactory || kind == BlockKind::Reconstructor || kind
        == BlockKind::UnitAssembler || kind == BlockKind::PayloadConveyor || kind
        == BlockKind::PayloadRouter || kind == BlockKind::PayloadMassDriver || kind
        == BlockKind::PayloadDeconstructor || kind == BlockKind::Constructor || kind
        == BlockKind::PayloadLoader || kind == BlockKind::PayloadSource || kind
        == BlockKind::UnitAssemblerModule
}

/// The number of bytes in front of the payload of such a block: two 32-bit
/// numbers on a payload conveyor or router, three everywhere else.
pub open spec fn payload_head(kind: BlockKind) -> int {
    if kind == BlockKind::PayloadConveyor || kind == BlockKind::PayloadRouter {
        8
    } else {
        12
    }
}

/// The offset behind a sequence of payload entries that starts at `pos`: a
/// signed 16-bit number, and as many entries as its negation counts, each of
/// a byte, a 16-bit and a 32-bit number.
pub open spec fn payload_seq_end(s: Seq<u8>, pos: int) -> Result<int, PacketError> {
    if pos + 2 > s.len() {
        Err(PacketError::UnexpectedEnd)
    } else if pos + 2 + 7 * count_of(-(i16_at(s, pos) as int)) > s.len() {
        Err(PacketError::UnexpectedEnd)
    } else {
        Ok(pos + 2 + 7 * count_of(-(i16_at(s, pos) as int)))
    }
}

pub fn read_payload_seq(reader: &mut Reader) -> (r: Result<(), PacketError>)
    requires
        old(reader).wf(),
    ensures
        skipped(
            r,
            old(reader),
            final(reader),
            payload_seq_end(old(reader).data(), old(reader).position()),
        ),
{
    reader.need(2)?;
    let amount = reader.short();
    let count: usize = if amount < 0 {
        (0 - amount as i32) as usize
    } else {
        0
    };
    reader.need(7 * count)?;
    reader.skip(7 * count);
    Ok(())
}

/// The offset behind the part of a unit assembler that follows its payload,
/// from `pos`: a progress, a count in one byte and that many 32-bit unit ids,
/// a sequence of payload entries, and from version 2 a pair of numbers.
pub open spec fn assembler_end(s: Seq<u8>, pos: int, version: u8) -> Result<int, PacketError> {
    if pos + 5 > s.len() {
        Err(PacketError::UnexpectedEnd)
    } else if pos + 5 + 4 * s[pos + 4] > s.len() {
        Err(PacketError::UnexpectedEnd)
    } else {
        match payload_seq_end(s, pos + 5 + 4 * s[pos + 4]) {
            Err(e) => Err(e),
            Ok(p) => if p + width_if(version >= 2, 8) > s.len() {
                Err(PacketError::UnexpectedEnd)
            } else {
                Ok(p + width_if(version >= 2, 8))
            },
        }
    }
}

/// The offset behind the part of a payload deconstructor that follows its
/// payload, from `pos`: a progress, a signed 16-bit count and that many
/// 32-bit numbers.
pub open spec fn deconstructor_end(s: Seq<u8>, pos: int) -> Result<int, PacketError> {
    if pos + 6 > s.len() {
        Err(PacketError::UnexpectedEnd)
    } else if pos + 6 + 4 * count_of(i16_at(s, pos + 4) as int) > s.len() {
        Err(PacketError::UnexpectedEnd)
    } else {
        Ok(pos + 6 + 4 * count_of(i16_at(s, pos + 4) as int))
    }
}

/// The number of bytes that follow the payload of a block of kind `kind`,
/// for the kinds where the kind and the version decide it.
pub open spec fn payload_tail_width(kind: BlockKind, version: u8) -> int {
    match kind {
        BlockKind::UnitFactory => 6 + width_if(version >= 2, 8) + width_if(version >= 3, 1),
        BlockKind::Reconstructor => width_if(version >= 1, 4) + width_if(version >= 2, 8)
            + width_if(version >= 3, 1),
        BlockKind::PayloadRouter => 4,
        BlockKind::PayloadMassDriver => 19,
        BlockKind::Constructor => 6,
        BlockKind::PayloadLoader => 1,
        BlockKind::PayloadSource => 4,
        _ => 0,
    }
}

/// The offset behind the part that follows the payload of a block of kind
/// `kind`, from `pos`.
pub open spec fn payload_tail_end(s: Seq<u8>, pos: int, kind: BlockKind, version: u8) -> Result<
    int,
    PacketError,
> {
    if kind == BlockKind::UnitAssembler {
        assembler_end(s, pos, version)
    } else if kind == BlockKind::PayloadDeconstructor {
        deconstructor_end(s, pos)
    } else if pos + payload_tail_width(kind, version) > s.len() {
        Err(PacketError::UnexpectedEnd)
    } else {
        Ok(pos + payload_tail_width(kind, version))
    }
}

fn read_payload_tail(reader: &mut Reader, kind: BlockKind, version: u8) -> (r: Result<
    (),
    PacketError,
>)
    requires
        old(reader).wf(),
    ensures
        skipped(
            r,
            old(reader),
            final(reader),
            payload_tail_end(old(reader).data(), old(reader).position(), kind, version),
        ),
{
    match kind {
        BlockKind::UnitAssembler => {
            reader.need(5)?;
            reader.skip(4);
            let count = reader.byte() as usize;
            reader.need(4 * count)?;
            reader.skip(4 * count);
            read_payload_seq(reader)?;
            if version >= 2 {
                reader.need(8)?;
                reader.skip(8);
            }
            Ok(())
        },
        BlockKind::PayloadDeconstructor => {
            reader.need(6)?;
            reader.skip(4);
            let accums = reader.short();
            let count: usize = if accums < 0 {
                0
            } else {
                accums as usize
            };
            reader.need(4 * count)?;
            reader.skip(4 * count);
            Ok(())
        },
        _ => {
            let v1: usize = if version >= 1 {
                4
            } else {
                0
            };
            let v2: usize = if version >= 2 {
                8
            } else {
                0
            };
            let v3: usize = if version >= 3 {
                1
            } else {
                0
            };
            let width: usize = match kind {
                BlockKind::UnitFactory => 6 + v2 + v3,
                BlockKind::Reconstructor => v1 + v2 + v3,
                BlockKind::PayloadRouter => 4,
                BlockKind::PayloadMassDriver => 19,
                BlockKind::Constructor => 6,
                BlockKind::PayloadLoader => 1,
                BlockKind::PayloadSource => 4,
                _ => 0,
            };
            reader.need(width)?;
            reader.skip(width);
            Ok(())
        },
    }
}

/// The name of the block with the id `id`: the entry of that index in the
/// category `block` of the content map.
pub open spec fn block_name_of(content: ContentView, id: i16) -> Option<Seq<char>> {
    match lookup(content, "block"@) {
        None => None,
        Some(names) => if 0 <= id < names.len() {
            Some(names[id as int])
        } else {
            None
        },
    }
}

/// The type of the block named `name`, as the table of block types has it.
pub open spec fn block_type_of(tables: TablesView, name: Seq<char>) -> Option<Seq<char>> {
    lookup(tables.block_types, name)
}

/// The name and the type of the block with the id `id`. An id that names no
/// block breaks the protocol; a name without a type is an unknown block type.
pub open spec fn resolve(content: ContentView, tables: TablesView, id: i16) -> Result<
    (Seq<char>, Seq<char>),
    PacketError,
> {
    match block_name_of(content, id) {
        None => Err(PacketError::ProtocolError),
        Some(name) => match block_type_of(tables, name) {
            None => Err(PacketError::UnknownBlockType),
            Some(t) => Ok((name, t)),
        },
    }
}

/// Finds the name and the type of the block with the id `id`.
pub fn resolve_block(content_map: &ContentMap, tables: &Tables, id: i16) -> (r: Result<
    (String, String),
    PacketError,
>)
    ensures
        match resolve(content_map.deep_view(), tables.deep_view(), id) {
            Ok((name, t)) => r is Ok && r->Ok_0.0@ == name && r->Ok_0.1@ == t,
            Err(e) => r is Err && r->Err_0 == e,
        },
{
    proof {
        lemma_table_lookup(content_map, "block"@);
    }
    let c = match content_map.find("block") {
        Some(c) => c,
        None => {
            return Err(PacketError::ProtocolError);
        },
    };
    let names = &content_map.entries[c].value;
    if id < 0 || id as usize >= names.len() {
        return Err(PacketError::ProtocolError);
    }
    let name = names[id as usize].clone();
    proof {
        lemma_table_lookup(&tables.block_types, name@);
    }
    let i = match tables.block_types.find(name.as_str()) {
        Some(i) => i,
        None => {
            return Err(PacketError::UnknownBlockType);
        },
    };
    let block_type = tables.block_types.entries[i].value.clone();
    Ok((name, block_type))
}

/// A block entity: what it is called, of which type it is, and its state.
#[derive(Debug, Clone)]
pub struct Block {
    pub name: String,
    pub block_type: String,
    pub base: BaseBlockData,
    pub specific: Option<SpecificBlockData>,
}

/// What a `Block` holds, as plain mathematical values.
pub struct BlockView {
    pub name: Seq<char>,
    pub block_type: Seq<char>,
    pub base: BaseBlockView,
    pub specific: Option<SpecificBlockView>,
}

impl DeepView for Block {
    type V = BlockView;

    open spec fn deep_view(&self) -> BlockView {
        BlockView {
            name: self.name@,
            block_type: self.block_type@,
            base: self.base.deep_view(),
            specific: self.specific.deep_view(),
        }
    }
}

/// The payload that starts at `pos`: a presence flag; then, where it is set,
/// a type byte, and for type 1 a block (its id, a version, and the block
/// entity itself), for any other type a unit handle.
pub open spec fn parse_payload(
    s: Seq<u8>,
    pos: int,
    content: ContentView,
    tables: TablesView,
) -> Parsed<
    Option<Payload>,
>
    decreases s.len() - pos, 0nat,
{
    if pos < 0 || pos + 1 > s.len() {
        Err(PacketError::UnexpectedEnd)
    } else if !bool_at(s, pos) {
        Ok((None, pos + 1))
    } else if pos + 2 > s.len() {
        Err(PacketError::UnexpectedEnd)
    } else if s[pos + 1] == 1 {
        if pos + 5 > s.len() {
            Err(PacketError::UnexpectedEnd)
        } else {
            match resolve(content, tables, i16_at(s, pos + 2)) {
                Err(e) => Err(e),
                Ok(
                    (name, t),
                ) => match parse_block(s, pos + 5, name, t, s[pos + 4], content, tables) {
                    Err(e) => Err(e),
                    Ok((_, next)) => Ok((Some(Payload {  }), next)),
                },
            }
        }
    } else if pos + 7 > s.len() {
        Err(PacketError::UnexpectedEnd)
    } else {
        Ok((Some(Payload {  }), pos + 7))
    }
}

/// The block entity that starts at `pos`: the base state, then the state of
/// the block's own, as its type and `version` lay it out.
pub open spec fn parse_block(
    s: Seq<u8>,
    pos: int,
    name: Seq<char>,
    block_type: Seq<char>,
    version: u8,
    content: ContentView,
    tables: TablesView,
) -> Parsed<BlockView>
    decreases s.len() - pos, 2nat,
{
    match parse_base(s, pos, default_bitmask(tables.block_params, name)) {
        Err(e) => Err(e),
        Ok((base, p)) => if p < pos || p > s.len() {
            Err(PacketError::UnexpectedEnd)
        } else {
            match parse_specific(s, p, name, block_type, version, content, tables) {
                Err(e) => Err(e),
                Ok((specific, next)) => Ok((BlockView { name, block_type, base, specific }, next)),
            }
        },
    }
}

/// The own state of the block named `name` of the type `block_type`, from
/// `pos`. A block that holds a payload has it behind two or three 32-bit
/// numbers, and nothing of its state is kept.
pub open spec fn parse_specific(
    s: Seq<u8>,
    pos: int,
    name: Seq<char>,
    block_type: Seq<char>,
    version: u8,
    content: ContentView,
    tables: TablesView,
) -> Parsed<Option<SpecificBlockView>>
    decreases s.len() - pos, 1nat,
{
    let kind = kind_of(block_type);
    if !holds_payload(kind) {
        parse_plain(s, pos, kind, name == "cultivator"@, name == "world-processor"@, version)
    } else if pos < 0 || pos + payload_head(kind) > s.len() {
        Err(PacketError::UnexpectedEnd)
    } else {
        match parse_payload(s, pos + payload_head(kind), content, tables) {
            Err(e) => Err(e),
            Ok((_, p)) => passed(payload_tail_end(s, p, kind, version)),
        }
    }
}

pub fn read_payload(reader: &mut Reader, content_map: &ContentMap, tables: &Tables) -> (r: Result<
    Option<Payload>,
    PacketError,
>)
    requires
        old(reader).wf(),
    ensures
        decoded(
            r,
            old(reader),
            final(reader),
            parse_payload(
                old(reader).data(),
                old(reader).position(),
                content_map.deep_view(),
                tables.deep_view(),
            ),
        ),
    decreases old(reader).left(), 0nat,
{
    reader.need(1)?;
    let ex = reader.bool();
    if !ex {
        return Ok(None);
    }
    reader.need(1)?;
    let payload_type = reader.byte();
    if payload_type == 1 {
        reader.need(3)?;
        let id = reader.short();
        let version = reader.byte();
        let (block_name, block_type) = resolve_block(content_map, tables, id)?;
        read_block(reader, block_name, block_type, version, content_map, tables)?;
    } else {
        reader.need(5)?;
        crate::type_io::read_unit(reader);
    }
    Ok(Some(Payload {  }))
}

pub fn read_block(
    reader: &mut Reader,
    id: String,
    block_type: String,
    version: u8,
    content_map: &ContentMap,
    tables: &Tables,
) -> (r: Result<Block, PacketError>)
    requires
        old(reader).wf(),
    ensures
        decoded(
            r,
            old(reader),
            final(reader),
            parse_block(
                old(reader).data(),
                old(reader).position(),
                id@,
                block_type@,
                version,
                content_map.deep_view(),
                tables.deep_view(),
            ),
        ),
    decreases old(reader).left(), 2nat,
{
    let base = read_base_block_data(reader, id.as_str(), &tables.block_params)?;
    let specific = read_specific_block_data(
        reader,
        id.as_str(),
        block_type.as_str(),
        version,
        content_map,
        tables,
    )?;
    Ok(Block { name: id, block_type, base, specific })
}

/// Reads the own state of the block named `block_name`, of the type
/// `block_type`.
pub fn read_specific_block_data(
    reader: &mut Reader,
    block_name: &str,
    block_type: &str,
    version: u8,
    content_map: &ContentMap,
    tables: &Tables,
) -> (r: Result<Option<SpecificBlockData>, PacketError>)
    requires
        old(reader).wf(),
    ensures
        decoded(
            r,
            old(reader),
            final(reader),
            parse_specific(
                old(reader).data(),
                old(reader).position(),
                block_name@,
                block_type@,
                version,
                content_map.deep_view(),
                tables.deep_view(),
            ),
        ),
    decreases old(reader).left(), 1nat,
{
    let kind = classify(block_type);
    let head: usize = match kind {
        BlockKind::PayloadConveyor | BlockKind::PayloadRouter => 8,
        BlockKind::UnitFactory | BlockKind::Reconstructor | BlockKind::UnitAssembler
        | BlockKind::PayloadMassDriver | BlockKind::PayloadDeconstructor | BlockKind::Constructor
        | BlockKind::PayloadLoader | BlockKind::PayloadSource | BlockKind::UnitAssemblerModule => 12,
        _ => 0,
    };
    if head == 0 {
        let cultivator = str_eq(block_name, "cultivator");
        let world_processor = str_eq(block_name, "world-processor");
        return read_plain(reader, kind, cultivator, world_processor, version);
    }
    reader.need(head)?;
    reader.skip(head);
    read_payload(reader, content_map, tables)?;
    read_payload_tail(reader, kind, version)?;
    Ok(None)
}

/// The block entity that starts at `pos`, for the block with the id `id`,
/// whose name and type the content map and the table of block types give.
#[verifier::opaque]
pub open spec fn parse_named_block(
    s: Seq<u8>,
    pos: int,
    id: i16,
    version: u8,
    content: ContentView,
    tables: TablesView,
) -> Parsed<BlockView> {
    match resolve(content, tables, id) {
        Err(e) => Err(e),
        Ok((name, t)) => parse_block(s, pos, name, t, version, content, tables),
    }
}

/// Reads the entity of the block with the id `id`.
pub fn read_named_block(
    reader: &mut Reader,
    id: i16,
    version: u8,
    content_map: &ContentMap,
    tables: &Tables,
) -> (r: Result<Block, PacketError>)
    requires
        old(reader).wf(),
    ensures
        decoded(
            r,
            old(reader),
            final(reader),
            parse_named_block(
                old(reader).data(),
                old(reader).position(),
                id,
                version,
                content_map.deep_view(),
                tables.deep_view(),
            ),
        ),
{
    reveal(parse_named_block);
    let (name, block_type) = resolve_block(content_map, tables, id)?;
    read_block(reader, name, block_type, version, content_map, tables)
}

} // verus!
