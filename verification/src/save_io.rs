//! The content header and the map of a world: a run-length encoded grid of
//! floors, ores and blocks, with the entities of the blocks that have one.

use crate::block_io::{
    parse_block, read_block, resolve, resolve_block, width_if, BaseBlockView, Block, BlockView,
};
use crate::packet::PacketError;
use crate::tables::{ContentMap, ContentView, Table, Tables, TablesView};
use crate::type_io::{
    bool_at, count_of, decoded, deep, i16_at, lemma_deep_empty, lemma_deep_push, lemma_deep_vec,
    lemma_repeat_fails, lemma_repeat_len, read_string, repeat, string_at, Parsed, Reader,
};
use vstd::prelude::*;

verus! {

/// A name that must be there, from `pos`: a length-prefixed string that is
/// neither absent nor malformed.
pub open spec fn parse_name(s: Seq<u8>, pos: int) -> Parsed<Seq<char>> {
    if pos + 2 > s.len() {
        Err(PacketError::UnexpectedEnd)
    } else {
        match string_at(s, pos).0 {
            None => Err(PacketError::ProtocolError),
            Some(text) => Ok((text, string_at(s, pos).1)),
        }
    }
}

/// The decoder of one name, as a value.
pub open spec fn name_item() -> spec_fn(Seq<u8>, int) -> Parsed<Seq<char>> {
    |s: Seq<u8>, p: int| parse_name(s, p)
}

/// One category of the content header from `pos`: the index of its name in
/// `types`, a signed 16-bit count, and that many names.
pub open spec fn parse_category(types: Seq<Seq<char>>, s: Seq<u8>, pos: int) -> Parsed<
    (Seq<char>, Seq<Seq<char>>),
> {
    if pos + 3 > s.len() {
        Err(PacketError::UnexpectedEnd)
    } else if s[pos] >= types.len() {
        Err(PacketError::ProtocolError)
    } else {
        match repeat(name_item(), s, pos + 3, count_of(i16_at(s, pos + 1) as int)) {
            Err(e) => Err(e),
            Ok((names, next)) => Ok(((types[s[pos] as int], names), next)),
        }
    }
}

/// The decoder of one category, as a value.
pub open spec fn category_item(types: Seq<Seq<char>>) -> spec_fn(Seq<u8>, int) -> Parsed<
    (Seq<char>, Seq<Seq<char>>),
> {
    |s: Seq<u8>, p: int| parse_category(types, s, p)
}

/// The content header from `pos`: a count in one byte, then that many
/// categories, in the order in which they stand.
pub open spec fn parse_content_header(types: Seq<Seq<char>>, s: Seq<u8>, pos: int) -> Parsed<
    Seq<(Seq<char>, Seq<Seq<char>>)>,
> {
    if pos + 1 > s.len() {
        Err(PacketError::UnexpectedEnd)
    } else {
        repeat(category_item(types), s, pos + 1, s[pos] as nat)
    }
}

/// The number of names in all the categories of a content map.
pub open spec fn total_names(categories: Seq<(Seq<char>, Seq<Seq<char>>)>) -> nat
    decreases categories.len(),
{
    if categories.len() == 0 {
        0
    } else {
        total_names(categories.drop_last()) + categories.last().1.len()
    }
}

/// The sum of the name counts that the first `n` categories of a content
/// header declare, where the categories stand one behind the other from
/// `pos`: each count is read where its category starts.
pub open spec fn declared_names(types: Seq<Seq<char>>, s: Seq<u8>, pos: int, n: nat) -> nat
    decreases n,
{
    if n == 0 {
        0
    } else {
        match repeat(category_item(types), s, pos, (n - 1) as nat) {
            Err(_) => declared_names(types, s, pos, (n - 1) as nat),
            Ok((_, start)) => declared_names(types, s, pos, (n - 1) as nat) + count_of(
                i16_at(s, start + 1) as int,
            ),
        }
    }
}

/// Where a content header decodes, it holds as many names as its categories
/// declare, all counts taken together: one string was read for each.
pub proof fn lemma_names_counted(types: Seq<Seq<char>>, s: Seq<u8>, pos: int, n: nat)
    ensures
        repeat(category_item(types), s, pos, n) matches Ok((categories, _)) ==> total_names(
            categories,
        ) == declared_names(types, s, pos, n),
    decreases n,
{
    if n > 0 {
        lemma_names_counted(types, s, pos, (n - 1) as nat);
        match repeat(category_item(types), s, pos, (n - 1) as nat) {
            Err(_) => {},
            Ok((head, start)) => {
                lemma_repeat_len(
                    name_item(),
                    s,
                    start + 3,
                    count_of(i16_at(s, start + 1) as int),
                );
                match parse_category(types, s, start) {
                    Err(_) => {},
                    Ok((category, _)) => {
                        assert(head.push(category).drop_last() =~= head);
                    },
                }
            },
        }
    }
}

fn read_name(reader: &mut Reader) -> (r: Result<String, PacketError>)
    requires
        old(reader).wf(),
    ensures
        decoded(
            r,
            old(reader),
            final(reader),
            parse_name(old(reader).data(), old(reader).position()),
        ),
{
    reader.need(2)?;
    match read_string(reader) {
        Some(name) => Ok(name),
        None => Err(PacketError::ProtocolError),
    }
}

fn read_names(reader: &mut Reader, count: usize) -> (r: Result<Vec<String>, PacketError>)
    requires
        old(reader).wf(),
    ensures
        decoded(
            r,
            old(reader),
            final(reader),
            repeat(name_item(), old(reader).data(), old(reader).position(), count as nat),
        ),
{
    let ghost s = reader.data();
    let ghost start = reader.position();
    let mut names: Vec<String> = Vec::new();
    let mut i: usize = 0;
    proof {
        lemma_deep_empty::<String>();
    }
    while i < count
        invariant
            i <= count,
            reader.kept(old(reader)),
            s == old(reader).data(),
            start == old(reader).position(),
            repeat(name_item(), s, start, i as nat) == Ok::<(Seq<Seq<char>>, int), PacketError>(
                (deep(names@), reader.position()),
            ),
        decreases count - i,
    {
        match read_name(reader) {
            Err(e) => {
                proof {
                    lemma_repeat_fails(name_item(), s, start, (i + 1) as nat, count as nat);
                }
                return Err(e);
            },
            Ok(name) => {
                proof {
                    lemma_deep_push(names@, name);
                }
                names.push(name);
            },
        }
        i += 1;
    }
    proof {
        lemma_deep_vec(names);
    }
    Ok(names)
}

fn read_category(reader: &mut Reader, content_types: &Vec<String>) -> (r: Result<
    (String, Vec<String>),
    PacketError,
>)
    requires
        old(reader).wf(),
    ensures
        decoded(
            r,
            old(reader),
            final(reader),
            parse_category(content_types.deep_view(), old(reader).data(), old(reader).position()),
        ),
{
    reader.need(3)?;
    let content_type_index = reader.byte() as usize;
    if content_type_index >= content_types.len() {
        return Err(PacketError::ProtocolError);
    }
    let content_type = content_types[content_type_index].clone();
    let count = reader.short();
    let n: usize = if count < 0 {
        0
    } else {
        count as usize
    };
    let names = read_names(reader, n)?;
    Ok((content_type, names))
}

/// Reads the content header: for each category its name, which
/// `content_types` gives by index, and the names of its entries.
pub fn read_content_header(reader: &mut Reader, content_types: &Vec<String>) -> (r: Result<
    ContentMap,
    PacketError,
>)
    requires
        old(reader).wf(),
    ensures
        decoded(
            r,
            old(reader),
            final(reader),
            parse_content_header(
                content_types.deep_view(),
                old(reader).data(),
                old(reader).position(),
            ),
        ),
{
    reader.need(1)?;
    let mapped = reader.byte();
    let ghost s = reader.data();
    let ghost start = reader.position();
    let ghost item = category_item(content_types.deep_view());
    let mut result: ContentMap = Table::new();
    let mut i: u8 = 0;
    assert(result.deep_view() =~= Seq::<(Seq<char>, Seq<Seq<char>>)>::empty());
    while i < mapped
        invariant
            i <= mapped,
            reader.kept(old(reader)),
            s == old(reader).data(),
            start == old(reader).position() + 1,
            start <= s.len(),
            mapped == s[start - 1],
            item == category_item(content_types.deep_view()),
            repeat(item, s, start, i as nat) == Ok::<
                (Seq<(Seq<char>, Seq<Seq<char>>)>, int),
                PacketError,
            >((result.deep_view(), reader.position())),
        decreases mapped - i,
    {
        match read_category(reader, content_types) {
            Err(e) => {
                proof {
                    lemma_repeat_fails(item, s, start, (i + 1) as nat, mapped as nat);
                }
                return Err(e);
            },
            Ok((content_type, names)) => {
                let ghost before = result.deep_view();
                let ghost added = (content_type@, names.deep_view());
                result.insert(content_type, names);
                assert(result.deep_view() =~= before.push(added));
            },
        }
        i += 1;
    }
    Ok(result)
}

/// One cell of the map.
#[derive(Debug, Clone)]
pub struct MapTile {
    pub floor: i16,
    pub ore: Option<i16>,
    pub block_id: Option<i16>,
    pub block: Option<Block>,
}

/// What a `MapTile` holds, as plain mathematical values.
pub struct MapTileView {
    pub floor: i16,
    pub ore: Option<i16>,
    pub block_id: Option<i16>,
    pub block: Option<BlockView>,
}

impl DeepView for MapTile {
    type V = MapTileView;

    open spec fn deep_view(&self) -> MapTileView {
        MapTileView {
            floor: self.floor,
            ore: self.ore,
            block_id: self.block_id,
            block: self.block.deep_view(),
        }
    }
}

/// A cell with floor 0 and nothing on it.
pub open spec fn blank_tile() -> MapTileView {
    MapTileView { floor: 0, ore: None, block_id: None, block: None }
}

/// A rectangular grid of cells, stored row by row: the cell `(x, y)` is the
/// entry `y * width + x` of `tiles`.
#[derive(Debug, Clone)]
pub struct TileMap {
    pub width: u32,
    pub height: u32,
    pub tiles: Vec<MapTile>,
}

/// What a `TileMap` holds, as plain mathematical values.
pub struct TileMapView {
    pub width: u32,
    pub height: u32,
    pub tiles: Seq<MapTileView>,
}

impl DeepView for TileMap {
    type V = TileMapView;

    open spec fn deep_view(&self) -> TileMapView {
        TileMapView { width: self.width, height: self.height, tiles: deep(self.tiles@) }
    }
}

/// The place of the cell `(x, y)` in a grid of the given size, if the cell
/// lies in it.
pub open spec fn cell_index(width: u32, height: u32, x: u32, y: u32) -> Option<int> {
    if x < width && y < height {
        Some(y * width + x)
    } else {
        None
    }
}

/// A cell of a grid has a place below the number of cells.
pub proof fn lemma_cell_index(width: u32, height: u32, x: u32, y: u32)
    requires
        x < width,
        y < height,
    ensures
        0 <= y * width + x < width * height,
{
    assert(y * width + x < width * height) by (nonlinear_arith)
        requires
            x < width,
            y < height,
    ;
    assert(0 <= y * width + x) by (nonlinear_arith);
}

impl TileMapView {
    /// The same grid with the cell at `at` replaced.
    pub open spec fn with_tile(self, at: Option<int>, tile: MapTileView) -> TileMapView {
        match at {
            Some(k) => TileMapView {
                width: self.width,
                height: self.height,
                tiles: self.tiles.update(k, tile),
            },
            None => self,
        }
    }
}

impl TileMap {
    /// The grid holds one cell for each position.
    pub open spec fn wf(&self) -> bool {
        self.tiles@.len() == self.width * self.height
    }

    /// The place of the cell `(x, y)`.
    pub open spec fn place(&self, x: u32, y: u32) -> Option<int> {
        cell_index(self.width, self.height, x, y)
    }

    /// A grid of blank cells.
    pub fn new(width: u32, height: u32) -> (m: TileMap)
        requires
            width * height <= usize::MAX,
        ensures
            m.wf(),
            m.deep_view() == (TileMapView {
                width,
                height,
                tiles: Seq::new((width * height) as nat, |k: int| blank_tile()),
            }),
    {
        assert(width * height <= usize::MAX);
        assert(0 <= width * height) by (nonlinear_arith);
        let total: usize = (width as usize) * (height as usize);
        let mut tiles: Vec<MapTile> = Vec::new();
        let mut i: usize = 0;
        while i < total
            invariant
                i <= total,
                tiles@.len() == i,
                forall|k: int| 0 <= k < i ==> (#[trigger] tiles@[k]).deep_view() == blank_tile(),
            decreases total - i,
        {
            tiles.push(MapTile { floor: 0, ore: None, block_id: None, block: None });
            i += 1;
        }
        let m = TileMap { width, height, tiles };
        assert(m.deep_view().tiles =~= Seq::new((width * height) as nat, |k: int| blank_tile()));
        m
    }

    fn slot(&self, x: u32, y: u32) -> (r: Option<usize>)
        requires
            self.wf(),
        ensures
            r matches Some(i) ==> self.place(x, y) == Some(i as int) && i < self.tiles@.len(),
            r is None ==> self.place(x, y) is None,
    {
        if x < self.width && y < self.height {
            let width = self.width;
            proof {
                lemma_cell_index(self.width, self.height, x, y);
                assert(self.tiles@.len() == self.tiles.len());
                assert(0 <= y * width) by (nonlinear_arith);
            }
            let row: usize = (y as usize) * (width as usize);
            Some(row + (x as usize))
        } else {
            None
        }
    }

    /// The cell `(x, y)`, or nothing where the grid has no such cell.
    pub fn get(&self, x: u32, y: u32) -> (r: Option<&MapTile>)
        requires
            self.wf(),
        ensures
            match self.place(x, y) {
                Some(k) => r == Some(&self.tiles@[k]),
                None => r is None,
            },
    {
        match self.slot(x, y) {
            Some(k) => Some(&self.tiles[k]),
            None => None,
        }
    }

    /// The place of the cell `(x, y)`, for a caller that wants to change it.
    pub fn find(&self, x: u32, y: u32) -> (r: Option<usize>)
        requires
            self.wf(),
        ensures
            r matches Some(i) ==> self.place(x, y) == Some(i as int) && i < self.tiles@.len(),
            r is None ==> self.place(x, y) is None,
    {
        self.slot(x, y)
    }

    /// Puts a block id on the cell at `k`, or takes it off.
    pub fn put_block_id(&mut self, k: usize, id: Option<i16>)
        requires
            old(self).wf(),
            k < old(self).tiles@.len(),
        ensures
            final(self).wf(),
            final(self).deep_view() == old(self).deep_view().with_tile(
                Some(k as int),
                MapTileView { block_id: id, ..old(self).deep_view().tiles[k as int] },
            ),
    {
        self.tiles[k].block_id = id;
        assert(self.deep_view().tiles =~= old(self).deep_view().tiles.update(
            k as int,
            MapTileView { block_id: id, ..old(self).deep_view().tiles[k as int] },
        ));
    }

    /// Puts a block entity on the cell at `k`, or takes it off.
    pub fn put_entity(&mut self, k: usize, block: Option<Block>)
        requires
            old(self).wf(),
            k < old(self).tiles@.len(),
        ensures
            final(self).wf(),
            final(self).deep_view() == old(self).deep_view().with_tile(
                Some(k as int),
                MapTileView { block: block.deep_view(), ..old(self).deep_view().tiles[k as int] },
            ),
    {
        let ghost shown = block.deep_view();
        self.tiles[k].block = block;
        assert(self.deep_view().tiles =~= old(self).deep_view().tiles.update(
            k as int,
            MapTileView { block: shown, ..old(self).deep_view().tiles[k as int] },
        ));
    }

    /// Gives the block entity on the cell at `k` another name and type. A
    /// cell without an entity is left alone.
    pub fn rename_entity(&mut self, k: usize, name: String, block_type: String)
        requires
            old(self).wf(),
            k < old(self).tiles@.len(),
        ensures
            final(self).wf(),
            final(self).deep_view() == match old(self).deep_view().tiles[k as int].block {
                Some(b) => old(self).deep_view().with_tile(
                    Some(k as int),
                    MapTileView {
                        block: Some(BlockView { name: name@, block_type: block_type@, ..b }),
                        ..old(self).deep_view().tiles[k as int]
                    },
                ),
                None => old(self).deep_view(),
            },
    {
        match &mut self.tiles[k].block {
            Some(b) => {
                b.name = name;
                b.block_type = block_type;
            },
            None => {},
        }
        assert(self.deep_view().tiles =~= match old(self).deep_view().tiles[k as int].block {
            Some(b) => old(self).deep_view().tiles.update(
                k as int,
                MapTileView {
                    block: Some(BlockView { name: name@, block_type: block_type@, ..b }),
                    ..old(self).deep_view().tiles[k as int]
                },
            ),
            None => old(self).deep_view().tiles,
        });
    }

    /// Turns the block entity on the cell at `k`. A cell without an entity is
    /// left alone.
    pub fn rotate_entity(&mut self, k: usize, rotation: u8)
        requires
            old(self).wf(),
            k < old(self).tiles@.len(),
        ensures
            final(self).wf(),
            final(self).deep_view() == match old(self).deep_view().tiles[k as int].block {
                Some(b) => old(self).deep_view().with_tile(
                    Some(k as int),
                    MapTileView {
                        block: Some(
                            BlockView { base: BaseBlockView { rotation, ..b.base }, ..b },
                        ),
                        ..old(self).deep_view().tiles[k as int]
                    },
                ),
                None => old(self).deep_view(),
            },
    {
        match &mut self.tiles[k].block {
            Some(b) => {
                b.base.rotation = rotation;
            },
            None => {},
        }
        assert(self.deep_view().tiles =~= match old(self).deep_view().tiles[k as int].block {
            Some(b) => old(self).deep_view().tiles.update(
                k as int,
                MapTileView {
                    block: Some(BlockView { base: BaseBlockView { rotation, ..b.base }, ..b }),
                    ..old(self).deep_view().tiles[k as int]
                },
            ),
            None => old(self).deep_view().tiles,
        });
    }

    /// Sets the floor of the cell `(x, y)`; a cell outside the grid is left
    /// alone.
    pub fn set_floor(&mut self, x: u32, y: u32, floor: i16)
        requires
            old(self).wf(),
        ensures
            final(self).wf(),
            final(self).deep_view() == match old(self).place(x, y) {
                Some(k) => old(self).deep_view().with_tile(
                    Some(k),
                    MapTileView { floor, ..old(self).deep_view().tiles[k] },
                ),
                None => old(self).deep_view(),
            },
    {
        match self.slot(x, y) {
            Some(k) => {
                self.tiles[k].floor = floor;
                assert(self.deep_view().tiles =~= old(self).deep_view().tiles.update(
                    k as int,
                    MapTileView { floor, ..old(self).deep_view().tiles[k as int] },
                ));
            },
            None => {},
        }
    }

    /// Sets the ore of the cell `(x, y)`; a cell outside the grid is left
    /// alone.
    pub fn set_ore(&mut self, x: u32, y: u32, ore: i16)
        requires
            old(self).wf(),
        ensures
            final(self).wf(),
            final(self).deep_view() == match old(self).place(x, y) {
                Some(k) => old(self).deep_view().with_tile(
                    Some(k),
                    MapTileView { ore: Some(ore), ..old(self).deep_view().tiles[k] },
                ),
                None => old(self).deep_view(),
            },
    {
        match self.slot(x, y) {
            Some(k) => {
                self.tiles[k].ore = Some(ore);
                assert(self.deep_view().tiles =~= old(self).deep_view().tiles.update(
                    k as int,
                    MapTileView { ore: Some(ore), ..old(self).deep_view().tiles[k as int] },
                ));
            },
            None => {},
        }
    }

    /// Sets the block id of the cell `(x, y)`; a cell outside the grid is
    /// left alone.
    pub fn set_block(&mut self, x: u32, y: u32, block: i16)
        requires
            old(self).wf(),
        ensures
            final(self).wf(),
            final(self).deep_view() == match old(self).place(x, y) {
                Some(k) => old(self).deep_view().with_tile(
                    Some(k),
                    MapTileView { block_id: Some(block), ..old(self).deep_view().tiles[k] },
                ),
                None => old(self).deep_view(),
            },
    {
        match self.slot(x, y) {
            Some(k) => {
                self.tiles[k].block_id = Some(block);
                assert(self.deep_view().tiles =~= old(self).deep_view().tiles.update(
                    k as int,
                    MapTileView { block_id: Some(block), ..old(self).deep_view().tiles[k as int] },
                ));
            },
            None => {},
        }
    }
}

/// The cells `from` up to `to` given the floor `floor`, and the ore `ore`
/// unless that is zero.
pub open spec fn with_floor(
    cells: Seq<MapTileView>,
    from: int,
    to: int,
    floor: i16,
    ore: i16,
) -> Seq<
    MapTileView,
> {
    Seq::new(
        cells.len(),
        |k: int|
            if from <= k < to {
                MapTileView {
                    floor,
                    ore: if ore != 0 {
                        Some(ore)
                    } else {
                        cells[k].ore
                    },
                    block_id: cells[k].block_id,
                    block: cells[k].block,
                }
            } else {
                cells[k]
            },
    )
}

/// The cells `from` up to `to` given the block id `id`.
pub open spec fn with_block_id(cells: Seq<MapTileView>, from: int, to: int, id: i16) -> Seq<
    MapTileView,
> {
    Seq::new(
        cells.len(),
        |k: int|
            if from <= k < to {
                MapTileView {
                    floor: cells[k].floor,
                    ore: cells[k].ore,
                    block_id: Some(id),
                    block: cells[k].block,
                }
            } else {
                cells[k]
            },
    )
}

/// The cell `at` given the block entity `block`.
pub open spec fn with_entity(cells: Seq<MapTileView>, at: int, block: BlockView) -> Seq<
    MapTileView,
> {
    Seq::new(
        cells.len(),
        |k: int|
            if k == at {
                MapTileView {
                    floor: cells[k].floor,
                    ore: cells[k].ore,
                    block_id: cells[k].block_id,
                    block: Some(block),
                }
            } else {
                cells[k]
            },
    )
}

/// Where a pass over the map stands: the cells as they are, and the running
/// index of the next cell.
pub struct Pass {
    pub cells: Seq<MapTileView>,
    pub index: nat,
}

/// The pass over floors and ores, from the running index `i` and the offset
/// `pos`. Each step holds a floor, an ore and a run length in one byte, and
/// covers the cell at the index and as many more as the run says. A run that
/// would pass the last cell breaks the protocol.
pub open spec fn floors_pass(
    s: Seq<u8>,
    pos: int,
    i: nat,
    total: nat,
    cells: Seq<MapTileView>,
) -> Parsed<
    Pass,
>
    decreases total - i,
{
    if i >= total {
        Ok((Pass { cells, index: i }, pos))
    } else if pos + 5 > s.len() {
        Err(PacketError::UnexpectedEnd)
    } else if i + 1 + s[pos + 4] > total {
        Err(PacketError::ProtocolError)
    } else {
        floors_pass(
            s,
            pos + 5,
            (i + 1 + s[pos + 4]) as nat,
            total,
            with_floor(cells, i as int, i + 1 + s[pos + 4], i16_at(s, pos), i16_at(s, pos + 2)),
        )
    }
}

/// The record of a block entity from `pos`, for the block with the id `id`:
/// a signed 16-bit length, a version byte and the block entity, which
/// together with the version byte must take exactly the declared length.
#[verifier::opaque]
pub open spec fn parse_entity(
    s: Seq<u8>,
    pos: int,
    id: i16,
    content: ContentView,
    tables: TablesView,
) -> Parsed<
    BlockView,
> {
    if pos + 3 > s.len() {
        Err(PacketError::UnexpectedEnd)
    } else {
        match resolve(content, tables, id) {
            Err(e) => Err(e),
            Ok((name, t)) => match parse_block(s, pos + 3, name, t, s[pos + 2], content, tables) {
                Err(e) => Err(e),
                Ok((block, next)) => if next - (pos + 2) != i16_at(s, pos) {
                    Err(PacketError::BlockLengthMismatch)
                } else {
                    Ok((block, next))
                },
            },
        }
    }
}

/// One step of the pass over blocks, at the running index `i` and the offset
/// `pos`: a block id and a flag byte (bit 0: the cell had an entity, bit 2:
/// it had data). Data is seven bytes that are read past. An entity starts
/// with a flag that says whether this cell is its centre; only a centre
/// carries the block id and the entity's record. A cell with neither is
/// followed by a run length, and the block id covers that many more cells.
pub open spec fn block_step(
    s: Seq<u8>,
    pos: int,
    i: nat,
    total: nat,
    cells: Seq<MapTileView>,
    content: ContentView,
    tables: TablesView,
) -> Parsed<Pass> {
    if pos + 3 > s.len() {
        Err(PacketError::UnexpectedEnd)
    } else {
        let id = i16_at(s, pos);
        let had_entity = s[pos + 2] % 2 == 1;
        let had_data = (s[pos + 2] / 4) % 2 == 1;
        let p1 = pos + 3 + width_if(had_data, 7);
        let p2 = p1 + width_if(had_entity, 1);
        if p2 > s.len() {
            Err(PacketError::UnexpectedEnd)
        } else {
            let is_center = !had_entity || bool_at(s, p1);
            let marked = if is_center {
                with_block_id(cells, i as int, (i + 1) as int, id)
            } else {
                cells
            };
            if had_entity {
                if is_center {
                    match parse_entity(s, p2, id, content, tables) {
                        Err(e) => Err(e),
                        Ok((block, next)) => Ok(
                            (
                                Pass { cells: with_entity(marked, i as int, block), index: i + 1 },
                                next,
                            ),
                        ),
                    }
                } else {
                    Ok((Pass { cells: marked, index: i + 1 }, p2))
                }
            } else if had_data {
                Ok((Pass { cells: marked, index: i + 1 }, p2))
            } else if p2 + 1 > s.len() {
                Err(PacketError::UnexpectedEnd)
            } else if i + 1 + s[p2] > total {
                Err(PacketError::ProtocolError)
            } else {
                Ok(
                    (
                        Pass {
                            cells: with_block_id(marked, (i + 1) as int, i + 1 + s[p2], id),
                            index: (i + 1 + s[p2]) as nat,
                        },
                        p2 + 1,
                    ),
                )
            }
        }
    }
}

/// The pass over blocks, from the running index `i` and the offset `pos`:
/// step by step until the index has reached the number of cells.
pub open spec fn blocks_pass(
    s: Seq<u8>,
    pos: int,
    i: nat,
    total: nat,
    cells: Seq<MapTileView>,
    content: ContentView,
    tables: TablesView,
) -> Parsed<Pass>
    decreases total - i,
{
    if i >= total {
        Ok((Pass { cells, index: i }, pos))
    } else {
        match block_step(s, pos, i, total, cells, content, tables) {
            Err(e) => Err(e),
            Ok((pass, next)) => if pass.index <= i {
                Err(PacketError::UnexpectedEnd)
            } else {
                blocks_pass(s, next, pass.index, total, pass.cells, content, tables)
            },
        }
    }
}

/// The pass over floors ends with the running index at the number of cells,
/// neither short of it nor beyond, and leaves the number of cells as it was.
pub proof fn lemma_floors_pass_covers(
    s: Seq<u8>,
    pos: int,
    i: nat,
    total: nat,
    cells: Seq<MapTileView>,
)
    requires
        i <= total,
    ensures
        floors_pass(s, pos, i, total, cells) matches Ok((pass, _)) ==> pass.index == total
            && pass.cells.len() == cells.len(),
    decreases total - i,
{
    if i < total && pos + 5 <= s.len() && i + 1 + s[pos + 4] <= total {
        lemma_floors_pass_covers(
            s,
            pos + 5,
            (i + 1 + s[pos + 4]) as nat,
            total,
            with_floor(cells, i as int, i + 1 + s[pos + 4], i16_at(s, pos), i16_at(s, pos + 2)),
        );
    }
}

/// A step of the pass over blocks moves the running index on, never beyond
/// the number of cells, and leaves the number of cells as it was.
pub proof fn lemma_block_step_advances(
    s: Seq<u8>,
    pos: int,
    i: nat,
    total: nat,
    cells: Seq<MapTileView>,
    content: ContentView,
    tables: TablesView,
)
    requires
        i < total,
    ensures
        block_step(s, pos, i, total, cells, content, tables) matches Ok((pass, _)) ==> i
            < pass.index <= total && pass.cells.len() == cells.len(),
{
}

/// The pass over blocks ends with the running index at the number of cells,
/// neither short of it nor beyond, and leaves the number of cells as it was.
pub proof fn lemma_blocks_pass_covers(
    s: Seq<u8>,
    pos: int,
    i: nat,
    total: nat,
    cells: Seq<MapTileView>,
    content: ContentView,
    tables: TablesView,
)
    requires
        i <= total,
    ensures
        blocks_pass(s, pos, i, total, cells, content, tables) matches Ok((pass, _)) ==> pass.index
            == total && pass.cells.len() == cells.len(),
    decreases total - i,
{
    if i < total {
        lemma_block_step_advances(s, pos, i, total, cells, content, tables);
        match block_step(s, pos, i, total, cells, content, tables) {
            Err(_) => {},
            Ok((pass, next)) => {
                lemma_blocks_pass_covers(s, next, pass.index, total, pass.cells, content, tables);
            },
        }
    }
}

/// Where the record of a block entity decodes, it takes the declared number
/// of bytes behind its length: no fewer and no more.
pub proof fn lemma_entity_length(
    s: Seq<u8>,
    pos: int,
    id: i16,
    content: ContentView,
    tables: TablesView,
)
    ensures
        parse_entity(s, pos, id, content, tables) matches Ok((_, next)) ==> next - (pos + 2)
            == i16_at(s, pos),
{
    reveal(parse_entity);
}

fn fill_floor(map: &mut TileMap, from: usize, to: usize, floor: i16, ore: i16)
    requires
        from <= to <= old(map).tiles@.len(),
    ensures
        final(map).width == old(map).width,
        final(map).height == old(map).height,
        final(map).tiles@.len() == old(map).tiles@.len(),
        deep(final(map).tiles@) == with_floor(
            deep(old(map).tiles@),
            from as int,
            to as int,
            floor,
            ore,
        ),
{
    let mut j: usize = from;
    assert(deep(map.tiles@) =~= with_floor(
        deep(old(map).tiles@),
        from as int,
        j as int,
        floor,
        ore,
    ));
    while j < to
        invariant
            from <= j <= to,
            to <= old(map).tiles@.len(),
            map.width == old(map).width,
            map.height == old(map).height,
            map.tiles@.len() == old(map).tiles@.len(),
            deep(map.tiles@) == with_floor(
                deep(old(map).tiles@),
                from as int,
                j as int,
                floor,
                ore,
            ),
        decreases to - j,
    {
        let ghost before = map.tiles@;
        map.tiles[j].floor = floor;
        if ore != 0 {
            map.tiles[j].ore = Some(ore);
        }
        assert(forall|k: int| 0 <= k < before.len() && k != j ==> map.tiles@[k] == before[k]);
        assert(map.tiles@[j as int].block == before[j as int].block);
        assert(map.tiles@[j as int].block_id == before[j as int].block_id);
        assert(map.tiles@[j as int].floor == floor);
        assert(map.tiles@[j as int].ore == if ore != 0 {
            Some(ore)
        } else {
            before[j as int].ore
        });
        assert(forall|k: int|
            0 <= k < before.len() ==> #[trigger] deep(before)[k] == before[k].deep_view());
        let ghost origin = deep(old(map).tiles@);
        assert forall|k: int| 0 <= k < before.len() implies #[trigger] deep(map.tiles@)[k]
            == with_floor(origin, from as int, j + 1, floor, ore)[k] by {
            assert(deep(before)[k] == with_floor(origin, from as int, j as int, floor, ore)[k]);
            assert(deep(map.tiles@)[k] == map.tiles@[k].deep_view());
        }
        j += 1;
        assert(deep(map.tiles@) =~= with_floor(
            deep(old(map).tiles@),
            from as int,
            j as int,
            floor,
            ore,
        ));
    }
}

fn fill_block_id(map: &mut TileMap, from: usize, to: usize, id: i16)
    requires
        from <= to <= old(map).tiles@.len(),
    ensures
        final(map).width == old(map).width,
        final(map).height == old(map).height,
        final(map).tiles@.len() == old(map).tiles@.len(),
        deep(final(map).tiles@) == with_block_id(
            deep(old(map).tiles@),
            from as int,
            to as int,
            id,
        ),
{
    let mut j: usize = from;
    assert(deep(map.tiles@) =~= with_block_id(deep(old(map).tiles@), from as int, j as int, id));
    while j < to
        invariant
            from <= j <= to,
            to <= old(map).tiles@.len(),
            map.width == old(map).width,
            map.height == old(map).height,
            map.tiles@.len() == old(map).tiles@.len(),
            deep(map.tiles@) == with_block_id(deep(old(map).tiles@), from as int, j as int, id),
        decreases to - j,
    {
        let ghost before = map.tiles@;
        map.tiles[j].block_id = Some(id);
        assert(forall|k: int| 0 <= k < before.len() && k != j ==> map.tiles@[k] == before[k]);
        assert(map.tiles@[j as int].block == before[j as int].block);
        assert(map.tiles@[j as int].block_id == Some(id));
        assert(map.tiles@[j as int].floor == before[j as int].floor);
        assert(map.tiles@[j as int].ore == before[j as int].ore);
        assert(forall|k: int|
            0 <= k < before.len() ==> #[trigger] deep(before)[k] == before[k].deep_view());
        let ghost origin = deep(old(map).tiles@);
        assert forall|k: int| 0 <= k < before.len() implies #[trigger] deep(map.tiles@)[k]
            == with_block_id(origin, from as int, j + 1, id)[k] by {
            assert(deep(before)[k] == with_block_id(origin, from as int, j as int, id)[k]);
            assert(deep(map.tiles@)[k] == map.tiles@[k].deep_view());
        }
        j += 1;
        assert(deep(map.tiles@) =~= with_block_id(
            deep(old(map).tiles@),
            from as int,
            j as int,
            id,
        ));
    }
}

/// What a pass returned and where it left the cursor and the map, held
/// against what the bytes say.
pub open spec fn passed_over(
    r: Result<(), PacketError>,
    before: &Reader,
    after: &Reader,
    map: &TileMap,
    want: Parsed<Pass>,
) -> bool {
    &&& after.kept(before)
    &&& match want {
        Ok((pass, next)) => r is Ok && deep(map.tiles@) == pass.cells && after.position() == next,
        Err(e) => r is Err && r->Err_0 == e,
    }
}

/// Reads the floors and ores of every cell of `map`, run by run.
pub fn read_floors(reader: &mut Reader, map: &mut TileMap) -> (r: Result<(), PacketError>)
    requires
        old(reader).wf(),
    ensures
        final(map).width == old(map).width,
        final(map).height == old(map).height,
        final(map).tiles@.len() == old(map).tiles@.len(),
        passed_over(
            r,
            old(reader),
            final(reader),
            final(map),
            floors_pass(
                old(reader).data(),
                old(reader).position(),
                0,
                old(map).tiles@.len(),
                deep(old(map).tiles@),
            ),
        ),
{
    let total = map.tiles.len();
    let ghost s = reader.data();
    let ghost goal = floors_pass(s, reader.position(), 0, total as nat, deep(map.tiles@));
    let mut i: usize = 0;
    while i < total
        invariant
            i <= total,
            total == map.tiles@.len(),
            total == old(map).tiles@.len(),
            map.width == old(map).width,
            map.height == old(map).height,
            reader.kept(old(reader)),
            s == old(reader).data(),
            goal == floors_pass(
                old(reader).data(),
                old(reader).position(),
                0,
                old(map).tiles@.len(),
                deep(old(map).tiles@),
            ),
            goal == floors_pass(s, reader.position(), i as nat, total as nat, deep(map.tiles@)),
        decreases total - i,
    {
        reader.need(5)?;
        let floor_id = reader.short();
        let ore_id = reader.short();
        let run = reader.byte() as usize;
        if run >= total - i {
            return Err(PacketError::ProtocolError);
        }
        fill_floor(map, i, i + 1 + run, floor_id, ore_id);
        i = i + 1 + run;
    }
    Ok(())
}

/// Reads the record of the entity of the block with the id `block_id`.
pub fn read_entity(reader: &mut Reader, block_id: i16, content_map: &ContentMap, tables: &Tables) -> (r:
    Result<Block, PacketError>)
    requires
        old(reader).wf(),
    ensures
        decoded(
            r,
            old(reader),
            final(reader),
            parse_entity(
                old(reader).data(),
                old(reader).position(),
                block_id,
                content_map.deep_view(),
                tables.deep_view(),
            ),
        ),
        r is Ok ==> final(reader).position() - (old(reader).position() + 2) == i16_at(
            old(reader).data(),
            old(reader).position(),
        ),
{
    reveal(parse_entity);
    reader.need(3)?;
    let length = reader.short();
    let before = reader.remaining();
    let version = reader.byte();
    let (block_name, block_type) = resolve_block(content_map, tables, block_id)?;
    let block = read_block(reader, block_name, block_type, version, content_map, tables)?;
    let after = reader.remaining();
    let used = before - after;
    if length < 0 || used != length as usize {
        return Err(PacketError::BlockLengthMismatch);
    }
    Ok(block)
}

/// What a step of the pass over blocks returned and where it left the cursor
/// and the map, held against what the bytes say.
pub open spec fn stepped(
    r: Result<usize, PacketError>,
    before: &Reader,
    after: &Reader,
    map: &TileMap,
    want: Parsed<Pass>,
) -> bool {
    &&& after.kept(before)
    &&& match want {
        Ok((pass, next)) => r is Ok && r->Ok_0 == pass.index && deep(map.tiles@) == pass.cells
            && after.position() == next,
        Err(e) => r is Err && r->Err_0 == e,
    }
}

fn read_block_step(
    reader: &mut Reader,
    map: &mut TileMap,
    i: usize,
    content_map: &ContentMap,
    tables: &Tables,
) -> (r: Result<usize, PacketError>)
    requires
        old(reader).wf(),
        i < old(map).tiles@.len(),
    ensures
        final(map).width == old(map).width,
        final(map).height == old(map).height,
        final(map).tiles@.len() == old(map).tiles@.len(),
        stepped(
            r,
            old(reader),
            final(reader),
            final(map),
            block_step(
                old(reader).data(),
                old(reader).position(),
                i as nat,
                old(map).tiles@.len(),
                deep(old(map).tiles@),
                content_map.deep_view(),
                tables.deep_view(),
            ),
        ),
        r matches Ok(next) ==> i < next <= old(map).tiles@.len(),
{
    let total = map.tiles.len();
    reader.need(3)?;
    let block_id = reader.short();
    let packed_check = reader.byte();
    let had_entity = packed_check % 2 == 1;
    let had_data = (packed_check / 4) % 2 == 1;
    if had_data {
        reader.need(7)?;
        reader.skip(7);
    }
    let mut is_center = true;
    if had_entity {
        reader.need(1)?;
        is_center = reader.bool();
    }
    if is_center {
        fill_block_id(map, i, i + 1, block_id);
    }
    let ghost marked = deep(map.tiles@);
    if had_entity {
        if is_center {
            let block = read_entity(reader, block_id, content_map, tables)?;
            let ghost shown = block.deep_view();
            map.tiles[i].block = Some(block);
            assert(deep(map.tiles@) =~= with_entity(marked, i as int, shown));
        }
        Ok(i + 1)
    } else if had_data {
        Ok(i + 1)
    } else {
        reader.need(1)?;
        let run = reader.byte() as usize;
        if run >= total - i {
            return Err(PacketError::ProtocolError);
        }
        fill_block_id(map, i + 1, i + 1 + run, block_id);
        Ok(i + 1 + run)
    }
}

/// Reads the blocks of every cell of `map`, step by step, with the entities
/// of the cells that are the centre of one.
pub fn read_blocks(reader: &mut Reader, map: &mut TileMap, content_map: &ContentMap, tables: &Tables) -> (r:
    Result<(), PacketError>)
    requires
        old(reader).wf(),
    ensures
        final(map).width == old(map).width,
        final(map).height == old(map).height,
        final(map).tiles@.len() == old(map).tiles@.len(),
        passed_over(
            r,
            old(reader),
            final(reader),
            final(map),
            blocks_pass(
                old(reader).data(),
                old(reader).position(),
                0,
                old(map).tiles@.len(),
                deep(old(map).tiles@),
                content_map.deep_view(),
                tables.deep_view(),
            ),
        ),
{
    let total = map.tiles.len();
    let ghost s = reader.data();
    let ghost goal = blocks_pass(
        s,
        reader.position(),
        0,
        total as nat,
        deep(map.tiles@),
        content_map.deep_view(),
        tables.deep_view(),
    );
    let mut i: usize = 0;
    while i < total
        invariant
            i <= total,
            total == map.tiles@.len(),
            total == old(map).tiles@.len(),
            map.width == old(map).width,
            map.height == old(map).height,
            reader.kept(old(reader)),
            s == old(reader).data(),
            goal == blocks_pass(
                old(reader).data(),
                old(reader).position(),
                0,
                old(map).tiles@.len(),
                deep(old(map).tiles@),
                content_map.deep_view(),
                tables.deep_view(),
            ),
            goal == blocks_pass(
                s,
                reader.position(),
                i as nat,
                total as nat,
                deep(map.tiles@),
                content_map.deep_view(),
                tables.deep_view(),
            ),
        decreases total - i,
    {
        i = read_block_step(reader, map, i, content_map, tables)?;
    }
    Ok(())
}

/// The map that starts at `pos`: its width and height as signed 16-bit
/// numbers, neither of them negative, then the pass over floors and ores and
/// the pass over blocks, each over all of its cells.
pub open spec fn parse_map(
    s: Seq<u8>,
    pos: int,
    content: ContentView,
    tables: TablesView,
) -> Parsed<
    TileMapView,
> {
    if pos + 4 > s.len() {
        Err(PacketError::UnexpectedEnd)
    } else if i16_at(s, pos) < 0 || i16_at(s, pos + 2) < 0 {
        Err(PacketError::ProtocolError)
    } else {
        let total = (i16_at(s, pos) * i16_at(s, pos + 2)) as nat;
        match floors_pass(s, pos + 4, 0, total, Seq::new(total, |k: int| blank_tile())) {
            Err(e) => Err(e),
            Ok((floors, p1)) => match blocks_pass(s, p1, 0, total, floors.cells, content, tables) {
                Err(e) => Err(e),
                Ok((blocks, p2)) => Ok(
                    (
                        TileMapView {
                            width: i16_at(s, pos) as u32,
                            height: i16_at(s, pos + 2) as u32,
                            tiles: blocks.cells,
                        },
                        p2,
                    ),
                ),
            },
        }
    }
}

/// Reads the map: its size, the floors and ores, and the blocks with their
/// entities.
pub fn read_map(reader: &mut Reader, content_map: &ContentMap, tables: &Tables) -> (r: Result<
    TileMap,
    PacketError,
>)
    requires
        old(reader).wf(),
    ensures
        decoded(
            r,
            old(reader),
            final(reader),
            parse_map(
                old(reader).data(),
                old(reader).position(),
                content_map.deep_view(),
                tables.deep_view(),
            ),
        ),
        r matches Ok(map) ==> map.wf(),
{
    reader.need(4)?;
    let width = reader.short();
    let height = reader.short();
    if width < 0 || height < 0 {
        return Err(PacketError::ProtocolError);
    }
    assert(width * height <= 32767 * 32767) by (nonlinear_arith)
        requires
            0 <= width <= 32767,
            0 <= height <= 32767,
    ;
    let mut map = TileMap::new(width as u32, height as u32);
    read_floors(reader, &mut map)?;
    read_blocks(reader, &mut map, content_map, tables)?;
    Ok(map)
}

} // verus!
