//! What units are made of on the wire: plans, statuses, mounts, controllers and
//! payloads, and the entities of a snapshot by their kind.

use crate::block_io::{float_at, parse_payload, value_if, width_if};
use crate::packet::PacketError;
use crate::tables::{ContentMap, ContentView, Tables, TablesView};
use crate::type_io::{
    be16_signed, be32, bool_at, bool_byte, copy_object, decoded, deep, floats_at, i16_at, items_at,
    lemma_deep_empty, lemma_deep_push, lemma_deep_vec, lemma_repeat_fails, object_bytes,
    parse_object, prefixed_string_at, read_floats, read_items, read_object, read_prefixed_string,
    read_tile, read_unit, read_vec2, repeat, tile_at, u32_at, u64_at, unit_at, vec2_at, write_byte,
    write_int, write_object, write_short, write_tile, written, Double, Float, Items, Object,
    ObjectView, Parsed, Reader, Tile, Unit, Vec2,
};
use vstd::prelude::*;
pub use crate::block_io::read_payload;

verus! {

/// The abilities of a unit from `pos`: a count in one byte, then that many
/// 32-bit IEEE-754 numbers.
pub open spec fn parse_abilities(s: Seq<u8>, pos: int) -> Parsed<Seq<Float>> {
    if pos + 1 > s.len() {
        Err(PacketError::UnexpectedEnd)
    } else if pos + 1 + 4 * s[pos] > s.len() {
        Err(PacketError::UnexpectedEnd)
    } else {
        Ok((floats_at(s, pos + 1, s[pos] as nat), pos + 1 + 4 * s[pos]))
    }
}

pub fn read_abilities(reader: &mut Reader) -> (r: Result<Vec<Float>, PacketError>)
    requires
        old(reader).wf(),
    ensures
        decoded(
            r,
            old(reader),
            final(reader),
            parse_abilities(old(reader).data(), old(reader).position()),
        ),
{
    reader.need(1)?;
    let length = reader.byte() as usize;
    reader.need(4 * length)?;
    let abilities = read_floats(reader, length);
    proof {
        lemma_deep_vec(abilities);
        assert(deep(abilities@) =~= abilities@);
    }
    Ok(abilities)
}

/// A construction order: where, and unless it is a removal (type 1), what.
#[derive(Debug, Clone)]
pub struct Plan {
    pub plan_type: u8,
    pub position: Tile,
    pub block: Option<i16>,
    pub rotation: Option<u8>,
    pub has_config: Option<bool>,
    pub config: Option<Object>,
}

/// What a `Plan` holds, as plain mathematical values.
pub struct PlanView {
    pub plan_type: u8,
    pub position: Tile,
    pub block: Option<i16>,
    pub rotation: Option<u8>,
    pub has_config: Option<bool>,
    pub config: Option<ObjectView>,
}

impl DeepView for Plan {
    type V = PlanView;

    open spec fn deep_view(&self) -> PlanView {
        PlanView {
            plan_type: self.plan_type,
            position: self.position,
            block: self.block,
            rotation: self.rotation,
            has_config: self.has_config,
            config: self.config.deep_view(),
        }
    }
}

/// The plan that starts at `pos`: its type and tile, and for every type but
/// 1 a block, a rotation, a flag and a tagged object.
pub open spec fn parse_plan(s: Seq<u8>, pos: int) -> Parsed<PlanView> {
    if pos + 5 > s.len() {
        Err(PacketError::UnexpectedEnd)
    } else if s[pos] == 1 {
        Ok(
            (
                PlanView {
                    plan_type: 1,
                    position: tile_at(s, pos + 1),
                    block: None,
                    rotation: None,
                    has_config: None,
                    config: None,
                },
                pos + 5,
            ),
        )
    } else if pos + 9 > s.len() {
        Err(PacketError::UnexpectedEnd)
    } else {
        match parse_object(s, pos + 9) {
            Err(e) => Err(e),
            Ok((config, next)) => Ok(
                (
                    PlanView {
                        plan_type: s[pos],
                        position: tile_at(s, pos + 1),
                        block: Some(i16_at(s, pos + 5)),
                        rotation: Some(s[pos + 7]),
                        has_config: Some(bool_at(s, pos + 8)),
                        config: Some(config),
                    },
                    next,
                ),
            ),
        }
    }
}

pub fn read_plan(reader: &mut Reader) -> (r: Result<Plan, PacketError>)
    requires
        old(reader).wf(),
    ensures
        decoded(
            r,
            old(reader),
            final(reader),
            parse_plan(old(reader).data(), old(reader).position()),
        ),
{
    reader.need(5)?;
    let plan_type = reader.byte();
    let position = read_tile(reader);
    if plan_type == 1 {
        Ok(
            Plan {
                plan_type,
                position,
                block: None,
                rotation: None,
                has_config: None,
                config: None,
            },
        )
    } else {
        reader.need(4)?;
        let block = reader.short();
        let rotation = reader.byte();
        let has_config = reader.bool();
        let config = read_object(reader)?;
        Ok(
            Plan {
                plan_type,
                position,
                block: Some(block),
                rotation: Some(rotation),
                has_config: Some(has_config),
                config: Some(config),
            },
        )
    }
}

/// The decoder of one plan, as a value.
pub open spec fn plan_item() -> spec_fn(Seq<u8>, int) -> Parsed<PlanView> {
    |s: Seq<u8>, p: int| parse_plan(s, p)
}

/// A list of plans from `pos`, counted by a signed 16-bit number.
pub open spec fn parse_plans(s: Seq<u8>, pos: int) -> Parsed<Seq<PlanView>> {
    if pos + 2 > s.len() {
        Err(PacketError::UnexpectedEnd)
    } else {
        repeat(plan_item(), s, pos + 2, crate::type_io::count_of(i16_at(s, pos) as int))
    }
}

/// A list of plans from `pos`, counted by an unsigned 32-bit number.
pub open spec fn parse_plans_queue(s: Seq<u8>, pos: int) -> Parsed<Seq<PlanView>> {
    if pos + 4 > s.len() {
        Err(PacketError::UnexpectedEnd)
    } else {
        repeat(plan_item(), s, pos + 4, u32_at(s, pos) as nat)
    }
}

fn read_plan_run(reader: &mut Reader, count: usize) -> (r: Result<Vec<Plan>, PacketError>)
    requires
        old(reader).wf(),
    ensures
        decoded(
            r,
            old(reader),
            final(reader),
            repeat(plan_item(), old(reader).data(), old(reader).position(), count as nat),
        ),
{
    let ghost s = reader.data();
    let ghost start = reader.position();
    let mut plans: Vec<Plan> = Vec::new();
    let mut i: usize = 0;
    proof {
        lemma_deep_empty::<Plan>();
    }
    while i < count
        invariant
            i <= count,
            reader.kept(old(reader)),
            s == old(reader).data(),
            start == old(reader).position(),
            repeat(plan_item(), s, start, i as nat) == Ok::<(Seq<PlanView>, int), PacketError>(
                (deep(plans@), reader.position()),
            ),
        decreases count - i,
    {
        match read_plan(reader) {
            Err(e) => {
                proof {
                    lemma_repeat_fails(plan_item(), s, start, (i + 1) as nat, count as nat);
                }
                return Err(e);
            },
            Ok(plan) => {
                proof {
                    lemma_deep_push(plans@, plan);
                }
                plans.push(plan);
            },
        }
        i += 1;
    }
    proof {
        lemma_deep_vec(plans);
    }
    Ok(plans)
}

pub fn read_plans(reader: &mut Reader) -> (r: Result<Vec<Plan>, PacketError>)
    requires
        old(reader).wf(),
    ensures
        decoded(
            r,
            old(reader),
            final(reader),
            parse_plans(old(reader).data(), old(reader).position()),
        ),
{
    reader.need(2)?;
    let plan_count = reader.short();
    let count: usize = if plan_count < 0 {
        0
    } else {
        plan_count as usize
    };
    read_plan_run(reader, count)
}

pub fn read_plans_queue(reader: &mut Reader) -> (r: Result<Vec<Plan>, PacketError>)
    requires
        old(reader).wf(),
    ensures
        decoded(
            r,
            old(reader),
            final(reader),
            parse_plans_queue(old(reader).data(), old(reader).position()),
        ),
{
    reader.need(4)?;
    let plan_count = reader.int32();
    read_plan_run(reader, plan_count as usize)
}

/// The bytes of a plan: its type and tile, and for every type but 1 the
/// block, the rotation, the flag and the tagged object. A plan of another
/// type that lacks one of these has no bytes.
pub open spec fn plan_bytes(p: PlanView) -> Result<Seq<u8>, PacketError> {
    let head = seq![p.plan_type] + be16_signed(p.position.x) + be16_signed(p.position.y);
    if p.plan_type == 1 {
        Ok(head)
    } else if p.block is None || p.rotation is None || p.has_config is None || p.config is None {
        Err(PacketError::ProtocolError)
    } else {
        match object_bytes(p.config->Some_0) {
            None => Err(PacketError::EncodingTooLong),
            Some(config) => Ok(
                head + be16_signed(p.block->Some_0) + seq![
                    p.rotation->Some_0,
                    bool_byte(p.has_config->Some_0),
                ] + config,
            ),
        }
    }
}

/// Writes a plan, or nothing where it has no bytes.
pub fn write_plan(buf: &mut Vec<u8>, plan: &Plan) -> (r: Result<(), PacketError>)
    ensures
        written(r, old(buf)@, final(buf)@, plan_bytes(plan.deep_view())),
{
    if plan.plan_type == 1 {
        write_byte(buf, plan.plan_type);
        write_tile(buf, plan.position);
        assert(buf@ == old(buf)@ + (seq![plan.plan_type] + be16_signed(plan.position.x)
            + be16_signed(plan.position.y)));
        return Ok(());
    }
    match (&plan.block, &plan.rotation, &plan.has_config, &plan.config) {
        (Some(block), Some(rotation), Some(has_config), Some(config)) => {
            let mut tail: Vec<u8> = Vec::new();
            match write_object(&mut tail, config) {
                Err(e) => {
                    return Err(e);
                },
                Ok(()) => {},
            }
            write_byte(buf, plan.plan_type);
            write_tile(buf, plan.position);
            write_short(buf, *block);
            write_byte(buf, *rotation);
            write_byte(
                buf,
                if *has_config {
                    1
                } else {
                    0
                },
            );
            crate::type_io::write_bytes(buf, tail.as_slice());
            assert(tail@ == Seq::<u8>::empty() + tail@);
            assert(buf@ == old(buf)@ + (seq![plan.plan_type] + be16_signed(plan.position.x)
                + be16_signed(plan.position.y) + be16_signed(*block) + seq![
                *rotation,
                bool_byte(*has_config),
            ] + tail@));
            Ok(())
        },
        _ => Err(PacketError::ProtocolError),
    }
}

/// The bytes of a run of plans, or the reason why the first plan without
/// bytes has none.
pub open spec fn plan_run_bytes(v: Seq<PlanView>) -> Result<Seq<u8>, PacketError>
    decreases v.len(),
{
    if v.len() == 0 {
        Ok(Seq::empty())
    } else {
        match plan_run_bytes(v.drop_last()) {
            Err(e) => Err(e),
            Ok(head) => match plan_bytes(v.last()) {
                Err(e) => Err(e),
                Ok(last) => Ok(head + last),
            },
        }
    }
}

/// The bytes of a list of plans: an unsigned 32-bit count, then the plans.
pub open spec fn plans_bytes(v: Seq<PlanView>) -> Result<Seq<u8>, PacketError> {
    if v.len() > 4294967295 {
        Err(PacketError::EncodingTooLong)
    } else {
        match plan_run_bytes(v) {
            Err(e) => Err(e),
            Ok(run) => Ok(be32(v.len() as u32) + run),
        }
    }
}

/// Once a plan of a run has no bytes, no longer run has any.
pub proof fn lemma_plan_run_fails(v: Seq<PlanView>, k: int)
    requires
        0 <= k <= v.len(),
        plan_run_bytes(v.subrange(0, k)) is Err,
    ensures
        plan_run_bytes(v) == plan_run_bytes(v.subrange(0, k)),
    decreases v.len(),
{
    if k < v.len() {
        assert(v.drop_last().subrange(0, k) =~= v.subrange(0, k));
        lemma_plan_run_fails(v.drop_last(), k);
    } else {
        assert(v.subrange(0, k) =~= v);
    }
}

/// Writes a list of plans, or nothing where one of them has no bytes.
pub fn write_plans(buf: &mut Vec<u8>, plans: &Vec<Plan>) -> (r: Result<(), PacketError>)
    ensures
        written(r, old(buf)@, final(buf)@, plans_bytes(plans.deep_view())),
{
    proof {
        lemma_deep_vec(*plans);
    }
    if plans.len() > 4294967295 {
        return Err(PacketError::EncodingTooLong);
    }
    let ghost all = deep(plans@);
    let mut run: Vec<u8> = Vec::new();
    let mut i: usize = 0;
    assert(all.subrange(0, 0) =~= Seq::<PlanView>::empty());
    while i < plans.len()
        invariant
            i <= plans.len(),
            plans.len() <= 4294967295,
            all == deep(plans@),
            all == plans.deep_view(),
            buf@ == old(buf)@,
            plan_run_bytes(all.subrange(0, i as int)) == Ok::<Seq<u8>, PacketError>(run@),
        decreases plans.len() - i,
    {
        let ghost before = run@;
        let done = write_plan(&mut run, &plans[i]);
        proof {
            assert(all.subrange(0, i + 1).drop_last() =~= all.subrange(0, i as int));
            assert(all.subrange(0, i + 1).last() == plans@[i as int].deep_view());
        }
        match done {
            Err(e) => {
                proof {
                    lemma_plan_run_fails(all, i + 1);
                }
                return Err(e);
            },
            Ok(()) => {},
        }
        i += 1;
    }
    assert(all.subrange(0, i as int) =~= all);
    write_int(buf, plans.len() as u32);
    crate::type_io::write_bytes(buf, run.as_slice());
    assert(all.len() == plans@.len());
    assert(buf@ == old(buf)@ + (be32(plans@.len() as u32) + run@));
    Ok(())
}

/// A status effect on a unit and the time it has left.
#[derive(Debug, Clone, Copy, PartialEq, Eq, Structural)]
pub struct Status {
    pub id: i16,
    pub time: Float,
}

impl DeepView for Status {
    type V = Status;

    open spec fn deep_view(&self) -> Status {
        *self
    }
}

/// The status in the six bytes from `pos`.
pub open spec fn status_at(s: Seq<u8>, pos: int) -> Status {
    Status { id: i16_at(s, pos), time: Float { bits: u32_at(s, pos + 2) } }
}

pub fn read_status(reader: &mut Reader) -> (r: Status)
    requires
        old(reader).wf(),
        old(reader).left() >= 6,
    ensures
        final(reader).moved(old(reader), 6),
        r == status_at(old(reader).data(), old(reader).position()),
{
    let id = reader.short();
    let time = reader.float();
    Status { id, time }
}

/// `n` statuses, one behind the other from `pos`.
pub open spec fn statuses_at(s: Seq<u8>, pos: int, n: nat) -> Seq<Status> {
    Seq::new(n, |i: int| status_at(s, pos + 6 * i))
}

/// A list of statuses from `pos`: an unsigned 32-bit count, then the entries.
pub open spec fn parse_statuses(s: Seq<u8>, pos: int) -> Parsed<Seq<Status>> {
    if pos + 4 > s.len() {
        Err(PacketError::UnexpectedEnd)
    } else if pos + 4 + 6 * u32_at(s, pos) > s.len() {
        Err(PacketError::UnexpectedEnd)
    } else {
        Ok((statuses_at(s, pos + 4, u32_at(s, pos) as nat), pos + 4 + 6 * u32_at(s, pos)))
    }
}

pub fn read_statuses(reader: &mut Reader) -> (r: Result<Vec<Status>, PacketError>)
    requires
        old(reader).wf(),
    ensures
        decoded(
            r,
            old(reader),
            final(reader),
            parse_statuses(old(reader).data(), old(reader).position()),
        ),
{
    reader.need(4)?;
    let count = reader.int32() as usize;
    reader.need_items(count, 6)?;
    let ghost s = reader.data();
    let ghost start = reader.position();
    let mut statuses: Vec<Status> = Vec::new();
    let mut i: usize = 0;
    while i < count
        invariant
            i <= count,
            reader.wf(),
            reader.data() == s,
            reader.position() == start + 6 * i,
            start + count * 6 <= s.len(),
            statuses@ == statuses_at(s, start, i as nat),
        decreases count - i,
    {
        statuses.push(read_status(reader));
        i += 1;
        assert(statuses@ =~= statuses_at(s, start, i as nat));
    }
    proof {
        lemma_deep_vec(statuses);
        assert(deep(statuses@) =~= statuses@);
    }
    Ok(statuses)
}

/// A weapon mount of a unit: its state and where it aims.
#[derive(Debug, Clone, Copy, PartialEq, Eq, Structural)]
pub struct Mount {
    pub state: u8,
    pub x: Float,
    pub y: Float,
}

impl DeepView for Mount {
    type V = Mount;

    open spec fn deep_view(&self) -> Mount {
        *self
    }
}

/// The mount in the nine bytes from `pos`.
pub open spec fn mount_at(s: Seq<u8>, pos: int) -> Mount {
    Mount {
        state: s[pos],
        x: Float { bits: u32_at(s, pos + 1) },
        y: Float { bits: u32_at(s, pos + 5) },
    }
}

/// `n` mounts, one behind the other from `pos`.
pub open spec fn mounts_at(s: Seq<u8>, pos: int, n: nat) -> Seq<Mount> {
    Seq::new(n, |i: int| mount_at(s, pos + 9 * i))
}

/// A list of mounts from `pos`: a count in one byte, then the entries.
pub open spec fn parse_mounts(s: Seq<u8>, pos: int) -> Parsed<Seq<Mount>> {
    if pos + 1 > s.len() {
        Err(PacketError::UnexpectedEnd)
    } else if pos + 1 + 9 * s[pos] > s.len() {
        Err(PacketError::UnexpectedEnd)
    } else {
        Ok((mounts_at(s, pos + 1, s[pos] as nat), pos + 1 + 9 * s[pos]))
    }
}

pub fn read_mounts(reader: &mut Reader) -> (r: Result<Vec<Mount>, PacketError>)
    requires
        old(reader).wf(),
    ensures
        decoded(
            r,
            old(reader),
            final(reader),
            parse_mounts(old(reader).data(), old(reader).position()),
        ),
{
    reader.need(1)?;
    let amount = reader.byte() as usize;
    reader.need(9 * amount)?;
    let ghost s = reader.data();
    let ghost start = reader.position();
    let mut mounts: Vec<Mount> = Vec::new();
    let mut i: usize = 0;
    while i < amount
        invariant
            i <= amount,
            reader.wf(),
            reader.data() == s,
            reader.position() == start + 9 * i,
            start + 9 * amount <= s.len(),
            mounts@ == mounts_at(s, start, i as nat),
        decreases amount - i,
    {
        let state = reader.byte();
        let x = reader.float();
        let y = reader.float();
        mounts.push(Mount { state, x, y });
        i += 1;
        assert(mounts@ =~= mounts_at(s, start, i as nat));
    }
    proof {
        lemma_deep_vec(mounts);
        assert(deep(mounts@) =~= mounts@);
    }
    Ok(mounts)
}

/// Who steers a unit. Its fields are read past; none is kept.
#[derive(Debug, Clone, Copy, PartialEq, Eq, Structural)]
pub struct Controller {}

impl DeepView for Controller {
    type V = Controller;

    open spec fn deep_view(&self) -> Controller {
        *self
    }
}

/// One entry of a command's action list from `pos`: a tag, then a 32-bit
/// target for tags 0 and 1, a pair of 32-bit numbers for tag 2, and nothing
/// for any other tag.
pub open spec fn parse_action(s: Seq<u8>, pos: int) -> Parsed<u8> {
    if pos + 1 > s.len() {
        Err(PacketError::UnexpectedEnd)
    } else {
        let width: int = if s[pos] == 0 || s[pos] == 1 {
            4
        } else if s[pos] == 2 {
            8
        } else {
            0
        };
        if pos + 1 + width > s.len() {
            Err(PacketError::UnexpectedEnd)
        } else {
            Ok((s[pos], pos + 1 + width))
        }
    }
}

/// The decoder of one action, as a value.
pub open spec fn action_item() -> spec_fn(Seq<u8>, int) -> Parsed<u8> {
    |s: Seq<u8>, p: int| parse_action(s, p)
}

/// The width of the fixed part of a command controller behind its two flags:
/// a position where `has_pos`, a target where `has_attack`, and a command id
/// for every tag but 4.
pub open spec fn command_width(tag: u8, has_attack: bool, has_pos: bool) -> int {
    (if has_pos {
        8int
    } else {
        0int
    }) + (if has_attack {
        5int
    } else {
        0int
    }) + (if tag != 4 {
        1int
    } else {
        0int
    })
}

/// The controller that starts at `pos`. Tags 0, 1 and 3 carry four bytes.
/// Tags 4, 6, 7 and 8 carry a command: two flags and what they announce;
/// tags 7 and 8 add a list of actions counted by one byte, and tag 8 a
/// stance byte. Any other tag carries nothing.
pub open spec fn parse_controller(s: Seq<u8>, pos: int) -> Parsed<Controller> {
    if pos + 1 > s.len() {
        Err(PacketError::UnexpectedEnd)
    } else if s[pos] == 0 || s[pos] == 1 || s[pos] == 3 {
        if pos + 5 > s.len() {
            Err(PacketError::UnexpectedEnd)
        } else {
            Ok((Controller {  }, pos + 5))
        }
    } else if s[pos] == 4 || s[pos] == 6 || s[pos] == 7 || s[pos] == 8 {
        if pos + 3 > s.len() {
            Err(PacketError::UnexpectedEnd)
        } else {
            let p1 = pos + 3 + command_width(s[pos], s[pos + 1] != 0, s[pos + 2] != 0);
            if p1 > s.len() {
                Err(PacketError::UnexpectedEnd)
            } else if s[pos] == 4 || s[pos] == 6 {
                Ok((Controller {  }, p1))
            } else if p1 + 1 > s.len() {
                Err(PacketError::UnexpectedEnd)
            } else {
                match repeat(action_item(), s, p1 + 1, s[p1] as nat) {
                    Err(e) => Err(e),
                    Ok((_, p2)) => if s[pos] == 7 {
                        Ok((Controller {  }, p2))
                    } else if p2 + 1 > s.len() {
                        Err(PacketError::UnexpectedEnd)
                    } else {
                        Ok((Controller {  }, p2 + 1))
                    },
                }
            }
        }
    } else {
        Ok((Controller {  }, pos + 1))
    }
}

fn read_actions(reader: &mut Reader, count: usize) -> (r: Result<(), PacketError>)
    requires
        old(reader).wf(),
    ensures
        final(reader).kept(old(reader)),
        match repeat(action_item(), old(reader).data(), old(reader).position(), count as nat) {
            Ok((_, next)) => r is Ok && final(reader).position() == next,
            Err(e) => r is Err && r->Err_0 == e,
        },
{
    let ghost s = reader.data();
    let ghost start = reader.position();
    let ghost mut tags: Seq<u8> = Seq::empty();
    let mut i: usize = 0;
    while i < count
        invariant
            i <= count,
            reader.kept(old(reader)),
            s == old(reader).data(),
            start == old(reader).position(),
            repeat(action_item(), s, start, i as nat) == Ok::<(Seq<u8>, int), PacketError>(
                (tags, reader.position()),
            ),
        decreases count - i,
    {
        proof {
            if parse_action(s, reader.position()) is Err {
                lemma_repeat_fails(action_item(), s, start, (i + 1) as nat, count as nat);
            }
        }
        reader.need(1)?;
        let tag = reader.byte();
        if tag == 0 || tag == 1 {
            reader.need(4)?;
            reader.int32();
        } else if tag == 2 {
            reader.need(8)?;
            reader.float();
            reader.float();
        }
        proof {
            tags = tags.push(tag);
        }
        i += 1;
    }
    Ok(())
}

pub fn read_controller(reader: &mut Reader) -> (r: Result<Controller, PacketError>)
    requires
        old(reader).wf(),
    ensures
        decoded(
            r,
            old(reader),
            final(reader),
            parse_controller(old(reader).data(), old(reader).position()),
        ),
{
    reader.need(1)?;
    let controller_type = reader.byte();
    if controller_type == 0 || controller_type == 1 || controller_type == 3 {
        reader.need(4)?;
        reader.int32();
    } else if controller_type == 4 || controller_type == 6 || controller_type == 7
        || controller_type == 8 {
        reader.need(2)?;
        let has_attack = reader.byte() != 0;
        let has_pos = reader.byte() != 0;
        let mut width: usize = 0;
        if has_pos {
            width = width + 8;
        }
        if has_attack {
            width = width + 5;
        }
        if controller_type != 4 {
            width = width + 1;
        }
        reader.need(width)?;
        reader.bytes(width);
        if controller_type == 7 || controller_type == 8 {
            reader.need(1)?;
            let length = reader.byte() as usize;
            read_actions(reader, length)?;
            if controller_type == 8 {
                reader.need(1)?;
                reader.byte();
            }
        }
    }
    Ok(Controller {  })
}

/// What a unit or a block carries. Its contents are read past; none is kept.
#[derive(Debug, Clone, Copy, PartialEq, Eq, Structural)]
pub struct Payload {}

impl DeepView for Payload {
    type V = Payload;

    open spec fn deep_view(&self) -> Payload {
        *self
    }
}

/// The contents of an optional list of payloads.
pub open spec fn payloads_view(p: Option<Vec<Payload>>) -> Option<Seq<Payload>> {
    match p {
        Some(v) => Some(v@),
        None => None,
    }
}

/// An entity of the world as a snapshot describes it, by its kind.
#[derive(Debug, Clone)]
#[allow(inconsistent_fields)]
pub enum FullUnit {
    GenericUnit {
        revision: Option<i16>,
        abilities: Vec<Float>,
        ammo: Float,
        building: Option<u32>,
        base_rotation: Option<Float>,
        controller: Controller,
        elevation: Float,
        flag: Double,
        health: Float,
        shooting: bool,
        lifetime: Option<Float>,
        mining_position: Tile,
        mounts: Vec<Mount>,
        payloads: Option<Vec<Payload>>,
        plans: Vec<Plan>,
        rotation: Float,
        shield: Float,
        spawned_by_core: bool,
        items: Items,
        statuses: Vec<Status>,
        team: u8,
        time: Option<Float>,
        unit_type: i16,
        upgrade_building: u8,
        velocity: Vec2,
        x: Float,
        y: Float,
    },
    Fire {
        revision: Option<i16>,
        lifetime: Float,
        tile: Tile,
        time: Float,
        x: Float,
        y: Float,
    },
    Puddle {
        revision: Option<i16>,
        amount: Float,
        liquid: i16,
        tile: Tile,
        x: Float,
        y: Float,
    },
    Player {
        revision: Option<i16>,
        admin: bool,
        boosting: bool,
        color: u32,
        mouse_x: Float,
        mouse_y: Float,
        name: String,
        shooting: bool,
        team: u8,
        typing: bool,
        unit: Unit,
        x: Float,
        y: Float,
    },
    WeatherState {
        revision: Option<i16>,
        effect: Float,
        intensity: Float,
        life: Float,
        opacity: Float,
        weather: i16,
        wind_x: Float,
        wind_y: Float,
    },
    WorldLabel {
        revision: Option<i16>,
        flags: u8,
        fonts: Float,
        str: String,
        x: Float,
        y: Float,
    },
    /// An entity of a kind that nothing is known of. Nothing was read for it.
    Unknown,
}

/// What a `FullUnit` holds, as plain mathematical values.
#[allow(inconsistent_fields)]
pub enum FullUnitView {
    GenericUnit {
        revision: Option<i16>,
        abilities: Seq<Float>,
        ammo: Float,
        building: Option<u32>,
        base_rotation: Option<Float>,
        controller: Controller,
        elevation: Float,
        flag: Double,
        health: Float,
        shooting: bool,
        lifetime: Option<Float>,
        mining_position: Tile,
        mounts: Seq<Mount>,
        payloads: Option<Seq<Payload>>,
        plans: Seq<PlanView>,
        rotation: Float,
        shield: Float,
        spawned_by_core: bool,
        items: Items,
        statuses: Seq<Status>,
        team: u8,
        time: Option<Float>,
        unit_type: i16,
        upgrade_building: u8,
        velocity: Vec2,
        x: Float,
        y: Float,
    },
    Fire {
        revision: Option<i16>,
        lifetime: Float,
        tile: Tile,
        time: Float,
        x: Float,
        y: Float,
    },
    Puddle {
        revision: Option<i16>,
        amount: Float,
        liquid: i16,
        tile: Tile,
        x: Float,
        y: Float,
    },
    Player {
        revision: Option<i16>,
        admin: bool,
        boosting: bool,
        color: u32,
        mouse_x: Float,
        mouse_y: Float,
        name: Seq<char>,
        shooting: bool,
        team: u8,
        typing: bool,
        unit: Unit,
        x: Float,
        y: Float,
    },
    WeatherState {
        revision: Option<i16>,
        effect: Float,
        intensity: Float,
        life: Float,
        opacity: Float,
        weather: i16,
        wind_x: Float,
        wind_y: Float,
    },
    WorldLabel {
        revision: Option<i16>,
        flags: u8,
        fonts: Float,
        str: Seq<char>,
        x: Float,
        y: Float,
    },
    Unknown,
}

impl DeepView for FullUnit {
    type V = FullUnitView;

    open spec fn deep_view(&self) -> FullUnitView {
        match self {
            FullUnit::GenericUnit {
                revision,
                abilities,
                ammo,
                building,
                base_rotation,
                controller,
                elevation,
                flag,
                health,
                shooting,
                lifetime,
                mining_position,
                mounts,
                payloads,
                plans,
                rotation,
                shield,
                spawned_by_core,
                items,
                statuses,
                team,
                time,
                unit_type,
                upgrade_building,
                velocity,
                x,
                y,
            } => FullUnitView::GenericUnit {
                revision: *revision,
                abilities: abilities@,
                ammo: *ammo,
                building: *building,
                base_rotation: *base_rotation,
                controller: *controller,
                elevation: *elevation,
                flag: *flag,
                health: *health,
                shooting: *shooting,
                lifetime: *lifetime,
                mining_position: *mining_position,
                mounts: mounts@,
                payloads: payloads_view(*payloads),
                plans: plans.deep_view(),
                rotation: *rotation,
                shield: *shield,
                spawned_by_core: *spawned_by_core,
                items: *items,
                statuses: statuses@,
                team: *team,
                time: *time,
                unit_type: *unit_type,
                upgrade_building: *upgrade_building,
                velocity: *velocity,
                x: *x,
                y: *y,
            },
            FullUnit::Fire { revision, lifetime, tile, time, x, y } => FullUnitView::Fire {
                revision: *revision,
                lifetime: *lifetime,
                tile: *tile,
                time: *time,
                x: *x,
                y: *y,
            },
            FullUnit::Puddle { revision, amount, liquid, tile, x, y } => FullUnitView::Puddle {
                revision: *revision,
                amount: *amount,
                liquid: *liquid,
                tile: *tile,
                x: *x,
                y: *y,
            },
            FullUnit::Player {
                revision,
                admin,
                boosting,
                color,
                mouse_x,
                mouse_y,
                name,
                shooting,
                team,
                typing,
                unit,
                x,
                y,
            } => FullUnitView::Player {
                revision: *revision,
                admin: *admin,
                boosting: *boosting,
                color: *color,
                mouse_x: *mouse_x,
                mouse_y: *mouse_y,
                name: name@,
                shooting: *shooting,
                team: *team,
                typing: *typing,
                unit: *unit,
                x: *x,
                y: *y,
            },
            FullUnit::WeatherState {
                revision,
                effect,
                intensity,
                life,
                opacity,
                weather,
                wind_x,
                wind_y,
            } => FullUnitView::WeatherState {
                revision: *revision,
                effect: *effect,
                intensity: *intensity,
                life: *life,
                opacity: *opacity,
                weather: *weather,
                wind_x: *wind_x,
                wind_y: *wind_y,
            },
            FullUnit::WorldLabel { revision, flags, fonts, str, x, y } => FullUnitView::WorldLabel {
                revision: *revision,
                flags: *flags,
                fonts: *fonts,
                str: str@,
                x: *x,
                y: *y,
            },
            FullUnit::Unknown => FullUnitView::Unknown,
        }
    }
}

/// The kinds of entity that a type byte can name.
#[derive(Debug, Clone, Copy, PartialEq, Eq, Structural)]
pub enum UnitKind {
    UnitEntity,
    BlockUnitUnit,
    MechUnit,
    PayloadUnit,
    Fire,
    Player,
    Puddle,
    WeatherState,
    UnitWaterMove,
    LegsUnit,
    WorldLabel,
    BuildingTetherPayloadUnit,
    TimedKillUnit,
    TankUnit,
    ElevationMoveUnit,
    CrawlUnit,
    /// A type byte that names no kind.
    Unknown,
}

/// The kind that the type byte `type_id` names.
pub open spec fn unit_kind(type_id: u8) -> UnitKind {
    match type_id {
        0 | 3 | 16 | 18 | 30 | 31 => UnitKind::UnitEntity,
        2 => UnitKind::BlockUnitUnit,
        4 | 17 | 19 | 32 => UnitKind::MechUnit,
        5 | 26 => UnitKind::PayloadUnit,
        10 => UnitKind::Fire,
        12 => UnitKind::Player,
        13 => UnitKind::Puddle,
        14 => UnitKind::WeatherState,
        20 => UnitKind::UnitWaterMove,
        21 | 24 | 29 | 33 => UnitKind::LegsUnit,
        35 => UnitKind::WorldLabel,
        36 => UnitKind::BuildingTetherPayloadUnit,
        39 => UnitKind::TimedKillUnit,
        43 => UnitKind::TankUnit,
        45 => UnitKind::ElevationMoveUnit,
        46 => UnitKind::CrawlUnit,
        _ => UnitKind::Unknown,
    }
}

/// Finds the kind that a type byte names.
pub fn unit_kind_of(type_id: u8) -> (k: UnitKind)
    ensures
        k == unit_kind(type_id),
{
    match type_id {
        0 | 3 | 16 | 18 | 30 | 31 => UnitKind::UnitEntity,
        2 => UnitKind::BlockUnitUnit,
        4 | 17 | 19 | 32 => UnitKind::MechUnit,
        5 | 26 => UnitKind::PayloadUnit,
        10 => UnitKind::Fire,
        12 => UnitKind::Player,
        13 => UnitKind::Puddle,
        14 => UnitKind::WeatherState,
        20 => UnitKind::UnitWaterMove,
        21 | 24 | 29 | 33 => UnitKind::LegsUnit,
        35 => UnitKind::WorldLabel,
        36 => UnitKind::BuildingTetherPayloadUnit,
        39 => UnitKind::TimedKillUnit,
        43 => UnitKind::TankUnit,
        45 => UnitKind::ElevationMoveUnit,
        46 => UnitKind::CrawlUnit,
        _ => UnitKind::Unknown,
    }
}

/// A payload that must be there: an absent one breaks the protocol.
#[verifier::opaque]
pub open spec fn parse_required_payload(
    s: Seq<u8>,
    pos: int,
    content: ContentView,
    tables: TablesView,
) -> Parsed<Payload> {
    match parse_payload(s, pos, content, tables) {
        Err(e) => Err(e),
        Ok((None, _)) => Err(PacketError::ProtocolError),
        Ok((Some(p), next)) => Ok((p, next)),
    }
}

/// The decoder of one payload that must be there, as a value.
pub open spec fn payload_item(content: ContentView, tables: TablesView) -> spec_fn(
    Seq<u8>,
    int,
) -> Parsed<Payload> {
    |s: Seq<u8>, p: int| parse_required_payload(s, p, content, tables)
}

/// A list of payloads from `pos`: an unsigned 32-bit count, then that many
/// payloads, none of them absent.
pub open spec fn parse_payloads(
    s: Seq<u8>,
    pos: int,
    content: ContentView,
    tables: TablesView,
) -> Parsed<
    Seq<Payload>,
> {
    if pos + 4 > s.len() {
        Err(PacketError::UnexpectedEnd)
    } else {
        repeat(payload_item(content, tables), s, pos + 4, u32_at(s, pos) as nat)
    }
}

fn read_required_payload(reader: &mut Reader, content_map: &ContentMap, tables: &Tables) -> (r:
    Result<Payload, PacketError>)
    requires
        old(reader).wf(),
    ensures
        decoded(
            r,
            old(reader),
            final(reader),
            parse_required_payload(
                old(reader).data(),
                old(reader).position(),
                content_map.deep_view(),
                tables.deep_view(),
            ),
        ),
{
    reveal(parse_required_payload);
    match read_payload(reader, content_map, tables)? {
        Some(payload) => Ok(payload),
        None => Err(PacketError::ProtocolError),
    }
}

pub fn read_payloads(reader: &mut Reader, content_map: &ContentMap, tables: &Tables) -> (r: Result<
    Vec<Payload>,
    PacketError,
>)
    requires
        old(reader).wf(),
    ensures
        decoded(
            r,
            old(reader),
            final(reader),
            parse_payloads(
                old(reader).data(),
                old(reader).position(),
                content_map.deep_view(),
                tables.deep_view(),
            ),
        ),
{
    reader.need(4)?;
    let amount = reader.int32() as usize;
    let ghost s = reader.data();
    let ghost start = reader.position();
    let ghost item = payload_item(content_map.deep_view(), tables.deep_view());
    let mut payloads: Vec<Payload> = Vec::new();
    let mut i: usize = 0;
    proof {
        lemma_deep_empty::<Payload>();
    }
    while i < amount
        invariant
            i <= amount,
            reader.kept(old(reader)),
            s == old(reader).data(),
            start == old(reader).position() + 4,
            item == payload_item(content_map.deep_view(), tables.deep_view()),
            old(reader).position() + 4 <= s.len(),
            amount == u32_at(s, old(reader).position()),
            repeat(item, s, start, i as nat) == Ok::<(Seq<Payload>, int), PacketError>(
                (deep(payloads@), reader.position()),
            ),
        decreases amount - i,
    {
        match read_required_payload(reader, content_map, tables) {
            Err(e) => {
                proof {
                    lemma_repeat_fails(item, s, start, (i + 1) as nat, amount as nat);
                }
                return Err(e);
            },
            Ok(payload) => {
                proof {
                    lemma_deep_push(payloads@, payload);
                }
                payloads.push(payload);
            },
        }
        i += 1;
    }
    proof {
        lemma_deep_vec(payloads);
    }
    Ok(payloads)
}

/// Whether an entity of kind `k` has the layout of a physical unit.
pub open spec fn is_generic(k: UnitKind) -> bool {
    k == UnitKind::MechUnit || k == UnitKind::CrawlUnit || k == UnitKind::ElevationMoveUnit || k
        == UnitKind::TankUnit || k == UnitKind::UnitEntity || k == UnitKind::BlockUnitUnit || k
        == UnitKind::UnitWaterMove || k == UnitKind::LegsUnit || k == UnitKind::TimedKillUnit || k
        == UnitKind::PayloadUnit || k == UnitKind::BuildingTetherPayloadUnit
}

/// Whether a unit of kind `k` carries a list of payloads.
pub open spec fn carries_payloads(k: UnitKind) -> bool {
    k == UnitKind::PayloadUnit || k == UnitKind::BuildingTetherPayloadUnit
}

/// The first part of a physical unit, up to its mounts.
pub struct GenericHead {
    pub abilities: Vec<Float>,
    pub ammo: Float,
    pub building: Option<u32>,
    pub base_rotation: Option<Float>,
    pub controller: Controller,
    pub elevation: Float,
    pub flag: Double,
    pub health: Float,
    pub shooting: bool,
    pub lifetime: Option<Float>,
    pub mining_position: Tile,
    pub mounts: Vec<Mount>,
}

/// The first part of a physical unit, as plain mathematical values.
pub struct GenericHeadView {
    pub abilities: Seq<Float>,
    pub ammo: Float,
    pub building: Option<u32>,
    pub base_rotation: Option<Float>,
    pub controller: Controller,
    pub elevation: Float,
    pub flag: Double,
    pub health: Float,
    pub shooting: bool,
    pub lifetime: Option<Float>,
    pub mining_position: Tile,
    pub mounts: Seq<Mount>,
}

impl DeepView for GenericHead {
    type V = GenericHeadView;

    open spec fn deep_view(&self) -> GenericHeadView {
        GenericHeadView {
            abilities: self.abilities@,
            ammo: self.ammo,
            building: self.building,
            base_rotation: self.base_rotation,
            controller: self.controller,
            elevation: self.elevation,
            flag: self.flag,
            health: self.health,
            shooting: self.shooting,
            lifetime: self.lifetime,
            mining_position: self.mining_position,
            mounts: self.mounts@,
        }
    }
}

/// The middle part of a physical unit, from its payloads to its statuses.
pub struct GenericBody {
    pub payloads: Option<Vec<Payload>>,
    pub plans: Vec<Plan>,
    pub rotation: Float,
    pub shield: Float,
    pub spawned_by_core: bool,
    pub items: Items,
    pub statuses: Vec<Status>,
}

/// The middle part of a physical unit, as plain mathematical values.
pub struct GenericBodyView {
    pub payloads: Option<Seq<Payload>>,
    pub plans: Seq<PlanView>,
    pub rotation: Float,
    pub shield: Float,
    pub spawned_by_core: bool,
    pub items: Items,
    pub statuses: Seq<Status>,
}

impl DeepView for GenericBody {
    type V = GenericBodyView;

    open spec fn deep_view(&self) -> GenericBodyView {
        GenericBodyView {
            payloads: payloads_view(self.payloads),
            plans: self.plans.deep_view(),
            rotation: self.rotation,
            shield: self.shield,
            spawned_by_core: self.spawned_by_core,
            items: self.items,
            statuses: self.statuses@,
        }
    }
}

/// The first part of a physical unit of kind `kind` from `pos`: abilities,
/// ammunition, for a tethered unit its building, for a mech its base
/// rotation, the controller, elevation, flag, health and the shooting flag,
/// for a timed unit its lifetime, the mining position and the mounts.
#[verifier::opaque]
pub open spec fn parse_head(s: Seq<u8>, pos: int, kind: UnitKind) -> Parsed<GenericHeadView> {
    let tether = kind == UnitKind::BuildingTetherPayloadUnit;
    let mech = kind == UnitKind::MechUnit;
    let timed = kind == UnitKind::TimedKillUnit;
    match parse_abilities(s, pos) {
        Err(e) => Err(e),
        Ok((abilities, p1)) => {
            let c = p1 + 4 + width_if(tether, 4) + width_if(mech, 4);
            if c > s.len() {
                Err(PacketError::UnexpectedEnd)
            } else {
                match parse_controller(s, c) {
                    Err(e) => Err(e),
                    Ok((controller, p2)) => {
                        let m = p2 + 21 + width_if(timed, 4);
                        if m > s.len() {
                            Err(PacketError::UnexpectedEnd)
                        } else {
                            match parse_mounts(s, m) {
                                Err(e) => Err(e),
                                Ok((mounts, p3)) => Ok(
                                    (
                                        GenericHeadView {
                                            abilities,
                                            ammo: float_at(s, p1),
                                            building: value_if(tether, u32_at(s, p1 + 4)),
                                            base_rotation: value_if(mech, float_at(s, p1 + 4)),
                                            controller,
                                            elevation: float_at(s, p2),
                                            flag: Double { bits: u64_at(s, p2 + 4) },
                                            health: float_at(s, p2 + 12),
                                            shooting: bool_at(s, p2 + 16),
                                            lifetime: value_if(timed, float_at(s, p2 + 17)),
                                            mining_position: tile_at(s, m - 4),
                                            mounts,
                                        },
                                        p3,
                                    ),
                                ),
                            }
                        }
                    },
                }
            }
        },
    }
}

fn read_head(reader: &mut Reader, kind: UnitKind) -> (r: Result<GenericHead, PacketError>)
    requires
        old(reader).wf(),
    ensures
        decoded(
            r,
            old(reader),
            final(reader),
            parse_head(old(reader).data(), old(reader).position(), kind),
        ),
{
    reveal(parse_head);
    let abilities = read_abilities(reader)?;
    proof {
        lemma_deep_vec(abilities);
        assert(deep(abilities@) =~= abilities@);
    }
    let tether = matches!(kind, UnitKind::BuildingTetherPayloadUnit);
    let mech = matches!(kind, UnitKind::MechUnit);
    let timed = matches!(kind, UnitKind::TimedKillUnit);
    let extra: usize = if tether || mech {
        4
    } else {
        0
    };
    reader.need(4 + extra)?;
    let ammo = reader.float();
    let building = if tether {
        Some(reader.int32())
    } else {
        None
    };
    let base_rotation = if mech {
        Some(reader.float())
    } else {
        None
    };
    let controller = read_controller(reader)?;
    reader.need(
        if timed {
            25
        } else {
            21
        },
    )?;
    let elevation = reader.float();
    let flag = reader.double();
    let health = reader.float();
    let shooting = reader.bool();
    let lifetime = if timed {
        Some(reader.float())
    } else {
        None
    };
    let mining_position = read_tile(reader);
    let mounts = read_mounts(reader)?;
    proof {
        lemma_deep_vec(mounts);
        assert(deep(mounts@) =~= mounts@);
    }
    Ok(
        GenericHead {
            abilities,
            ammo,
            building,
            base_rotation,
            controller,
            elevation,
            flag,
            health,
            shooting,
            lifetime,
            mining_position,
            mounts,
        },
    )
}

/// The list of payloads of a unit from `pos`, there when `present`. Without
/// a content map no payload can be decoded.
pub open spec fn parse_payloads_if(
    s: Seq<u8>,
    pos: int,
    present: bool,
    content: Option<ContentView>,
    tables: TablesView,
) -> Parsed<Option<Seq<Payload>>> {
    if !present {
        Ok((None, pos))
    } else {
        match content {
            None => Err(PacketError::ContentMapMissing),
            Some(c) => match parse_payloads(s, pos, c, tables) {
                Err(e) => Err(e),
                Ok((v, next)) => Ok((Some(v), next)),
            },
        }
    }
}

/// The middle part of a physical unit of kind `kind` from `pos`: for a unit
/// that carries payloads their list, then the plans, rotation, shield, the
/// spawn flag, the item stack and the statuses.
#[verifier::opaque]
pub open spec fn parse_body(
    s: Seq<u8>,
    pos: int,
    kind: UnitKind,
    content: Option<ContentView>,
    tables: TablesView,
) -> Parsed<GenericBodyView> {
    match parse_payloads_if(s, pos, carries_payloads(kind), content, tables) {
        Err(e) => Err(e),
        Ok((payloads, p1)) => match parse_plans_queue(s, p1) {
            Err(e) => Err(e),
            Ok((plans, p2)) => if p2 + 15 > s.len() {
                Err(PacketError::UnexpectedEnd)
            } else {
                match parse_statuses(s, p2 + 15) {
                    Err(e) => Err(e),
                    Ok((statuses, p3)) => Ok(
                        (
                            GenericBodyView {
                                payloads,
                                plans,
                                rotation: float_at(s, p2),
                                shield: float_at(s, p2 + 4),
                                spawned_by_core: bool_at(s, p2 + 8),
                                items: items_at(s, p2 + 9),
                                statuses,
                            },
                            p3,
                        ),
                    ),
                }
            },
        },
    }
}

fn read_body(
    reader: &mut Reader,
    kind: UnitKind,
    content_map: &Option<ContentMap>,
    tables: &Tables,
) -> (r: Result<GenericBody, PacketError>)
    requires
        old(reader).wf(),
    ensures
        decoded(
            r,
            old(reader),
            final(reader),
            parse_body(
                old(reader).data(),
                old(reader).position(),
                kind,
                content_map.deep_view(),
                tables.deep_view(),
            ),
        ),
{
    reveal(parse_body);
    let carries = matches!(kind, UnitKind::PayloadUnit | UnitKind::BuildingTetherPayloadUnit);
    let payloads = if carries {
        match content_map {
            None => {
                return Err(PacketError::ContentMapMissing);
            },
            Some(content) => {
                let list = read_payloads(reader, content, tables)?;
                proof {
                    lemma_deep_vec(list);
                    assert(deep(list@) =~= list@);
                }
                Some(list)
            },
        }
    } else {
        None
    };
    let plans = read_plans_queue(reader)?;
    reader.need(15)?;
    let rotation = reader.float();
    let shield = reader.float();
    let spawned_by_core = reader.bool();
    let items = read_items(reader);
    let statuses = read_statuses(reader)?;
    proof {
        lemma_deep_vec(statuses);
        assert(deep(statuses@) =~= statuses@);
    }
    Ok(GenericBody { payloads, plans, rotation, shield, spawned_by_core, items, statuses })
}

/// A physical unit of kind `kind` from `pos`: its first and middle part,
/// then the team, for a timed unit its time, the unit type, the upgrade
/// byte, the velocity and the position.
#[verifier::opaque]
pub open spec fn parse_generic(
    s: Seq<u8>,
    pos: int,
    kind: UnitKind,
    revision: Option<i16>,
    content: Option<ContentView>,
    tables: TablesView,
) -> Parsed<FullUnitView> {
    let timed = kind == UnitKind::TimedKillUnit;
    match parse_head(s, pos, kind) {
        Err(e) => Err(e),
        Ok((h, p1)) => match parse_body(s, p1, kind, content, tables) {
            Err(e) => Err(e),
            Ok((b, p2)) => {
                let t = p2 + 1 + width_if(timed, 4);
                if t + 19 > s.len() {
                    Err(PacketError::UnexpectedEnd)
                } else {
                    Ok(
                        (
                            FullUnitView::GenericUnit {
                                revision,
                                abilities: h.abilities,
                                ammo: h.ammo,
                                building: h.building,
                                base_rotation: h.base_rotation,
                                controller: h.controller,
                                elevation: h.elevation,
                                flag: h.flag,
                                health: h.health,
                                shooting: h.shooting,
                                lifetime: h.lifetime,
                                mining_position: h.mining_position,
                                mounts: h.mounts,
                                payloads: b.payloads,
                                plans: b.plans,
                                rotation: b.rotation,
                                shield: b.shield,
                                spawned_by_core: b.spawned_by_core,
                                items: b.items,
                                statuses: b.statuses,
                                team: s[p2],
                                time: value_if(timed, float_at(s, p2 + 1)),
                                unit_type: i16_at(s, t),
                                upgrade_building: s[t + 2],
                                velocity: vec2_at(s, t + 3),
                                x: float_at(s, t + 11),
                                y: float_at(s, t + 15),
                            },
                            t + 19,
                        ),
                    )
                }
            },
        },
    }
}

fn read_generic(
    reader: &mut Reader,
    kind: UnitKind,
    revision: Option<i16>,
    content_map: &Option<ContentMap>,
    tables: &Tables,
) -> (r: Result<FullUnit, PacketError>)
    requires
        old(reader).wf(),
    ensures
        decoded(
            r,
            old(reader),
            final(reader),
            parse_generic(
                old(reader).data(),
                old(reader).position(),
                kind,
                revision,
                content_map.deep_view(),
                tables.deep_view(),
            ),
        ),
{
    reveal(parse_generic);
    let head = read_head(reader, kind)?;
    let body = read_body(reader, kind, content_map, tables)?;
    let timed = matches!(kind, UnitKind::TimedKillUnit);
    reader.need(
        if timed {
            24
        } else {
            20
        },
    )?;
    let team = reader.byte();
    let time = if timed {
        Some(reader.float())
    } else {
        None
    };
    let unit_type = reader.short();
    let upgrade_building = reader.byte();
    let velocity = read_vec2(reader);
    let x = reader.float();
    let y = reader.float();
    Ok(
        FullUnit::GenericUnit {
            revision,
            abilities: head.abilities,
            ammo: head.ammo,
            building: head.building,
            base_rotation: head.base_rotation,
            controller: head.controller,
            elevation: head.elevation,
            flag: head.flag,
            health: head.health,
            shooting: head.shooting,
            lifetime: head.lifetime,
            mining_position: head.mining_position,
            mounts: head.mounts,
            payloads: body.payloads,
            plans: body.plans,
            rotation: body.rotation,
            shield: body.shield,
            spawned_by_core: body.spawned_by_core,
            items: body.items,
            statuses: body.statuses,
            team,
            time,
            unit_type,
            upgrade_building,
            velocity,
            x,
            y,
        },
    )
}

/// A player from `pos`: two flags, a colour, the pointer, a name that must
/// be there, three more flags and bytes, the unit handle and the position.
#[verifier::opaque]
pub open spec fn parse_player(s: Seq<u8>, pos: int, revision: Option<i16>) -> Parsed<FullUnitView> {
    if pos + 14 > s.len() {
        Err(PacketError::UnexpectedEnd)
    } else {
        let q = prefixed_string_at(s, pos + 14).1;
        match prefixed_string_at(s, pos + 14).0 {
            None => Err(PacketError::ProtocolError),
            Some(name) => if q + 16 > s.len() {
                Err(PacketError::UnexpectedEnd)
            } else {
                Ok(
                    (
                        FullUnitView::Player {
                            revision,
                            admin: bool_at(s, pos),
                            boosting: bool_at(s, pos + 1),
                            color: u32_at(s, pos + 2),
                            mouse_x: float_at(s, pos + 6),
                            mouse_y: float_at(s, pos + 10),
                            name,
                            shooting: bool_at(s, q),
                            team: s[q + 1],
                            typing: bool_at(s, q + 2),
                            unit: unit_at(s, q + 3),
                            x: float_at(s, q + 8),
                            y: float_at(s, q + 12),
                        },
                        q + 16,
                    ),
                )
            },
        }
    }
}

fn read_player(reader: &mut Reader, revision: Option<i16>) -> (r: Result<FullUnit, PacketError>)
    requires
        old(reader).wf(),
    ensures
        decoded(
            r,
            old(reader),
            final(reader),
            parse_player(old(reader).data(), old(reader).position(), revision),
        ),
{
    reveal(parse_player);
    reader.need(14)?;
    let admin = reader.bool();
    let boosting = reader.bool();
    let color = reader.int32();
    let mouse_x = reader.float();
    let mouse_y = reader.float();
    let name = match read_prefixed_string(reader) {
        Some(name) => name,
        None => {
            return Err(PacketError::ProtocolError);
        },
    };
    reader.need(16)?;
    let shooting = reader.bool();
    let team = reader.byte();
    let typing = reader.bool();
    let unit = read_unit(reader);
    let x = reader.float();
    let y = reader.float();
    Ok(
        FullUnit::Player {
            revision,
            admin,
            boosting,
            color,
            mouse_x,
            mouse_y,
            name,
            shooting,
            team,
            typing,
            unit,
            x,
            y,
        },
    )
}

/// A world label from `pos`: its flags, a font size, a text that must be
/// there, and the position.
#[verifier::opaque]
pub open spec fn parse_label(s: Seq<u8>, pos: int, revision: Option<i16>) -> Parsed<FullUnitView> {
    if pos + 5 > s.len() {
        Err(PacketError::UnexpectedEnd)
    } else {
        let q = prefixed_string_at(s, pos + 5).1;
        match prefixed_string_at(s, pos + 5).0 {
            None => Err(PacketError::ProtocolError),
            Some(text) => if q + 8 > s.len() {
                Err(PacketError::UnexpectedEnd)
            } else {
                Ok(
                    (
                        FullUnitView::WorldLabel {
                            revision,
                            flags: s[pos],
                            fonts: float_at(s, pos + 1),
                            str: text,
                            x: float_at(s, q),
                            y: float_at(s, q + 4),
                        },
                        q + 8,
                    ),
                )
            },
        }
    }
}

fn read_label(reader: &mut Reader, revision: Option<i16>) -> (r: Result<FullUnit, PacketError>)
    requires
        old(reader).wf(),
    ensures
        decoded(
            r,
            old(reader),
            final(reader),
            parse_label(old(reader).data(), old(reader).position(), revision),
        ),
{
    reveal(parse_label);
    reader.need(5)?;
    let flags = reader.byte();
    let fonts = reader.float();
    let text = match read_prefixed_string(reader) {
        Some(text) => text,
        None => {
            return Err(PacketError::ProtocolError);
        },
    };
    reader.need(8)?;
    let x = reader.float();
    let y = reader.float();
    Ok(FullUnit::WorldLabel { revision, flags, fonts, str: text, x, y })
}

/// An entity of a kind with a record of fixed width, from `pos`.
#[verifier::opaque]
pub open spec fn parse_simple(
    s: Seq<u8>,
    pos: int,
    kind: UnitKind,
    revision: Option<i16>,
) -> Parsed<
    FullUnitView,
> {
    match kind {
        UnitKind::Fire => if pos + 20 > s.len() {
            Err(PacketError::UnexpectedEnd)
        } else {
            Ok(
                (
                    FullUnitView::Fire {
                        revision,
                        lifetime: float_at(s, pos),
                        tile: tile_at(s, pos + 4),
                        time: float_at(s, pos + 8),
                        x: float_at(s, pos + 12),
                        y: float_at(s, pos + 16),
                    },
                    pos + 20,
                ),
            )
        },
        UnitKind::Puddle => if pos + 18 > s.len() {
            Err(PacketError::UnexpectedEnd)
        } else {
            Ok(
                (
                    FullUnitView::Puddle {
                        revision,
                        amount: float_at(s, pos),
                        liquid: i16_at(s, pos + 4),
                        tile: tile_at(s, pos + 6),
                        x: float_at(s, pos + 10),
                        y: float_at(s, pos + 14),
                    },
                    pos + 18,
                ),
            )
        },
        UnitKind::WeatherState => if pos + 26 > s.len() {
            Err(PacketError::UnexpectedEnd)
        } else {
            Ok(
                (
                    FullUnitView::WeatherState {
                        revision,
                        effect: float_at(s, pos),
                        intensity: float_at(s, pos + 4),
                        life: float_at(s, pos + 8),
                        opacity: float_at(s, pos + 12),
                        weather: i16_at(s, pos + 16),
                        wind_x: float_at(s, pos + 18),
                        wind_y: float_at(s, pos + 22),
                    },
                    pos + 26,
                ),
            )
        },
        _ => Ok((FullUnitView::Unknown, pos)),
    }
}

fn read_simple(reader: &mut Reader, kind: UnitKind, revision: Option<i16>) -> (r: Result<
    FullUnit,
    PacketError,
>)
    requires
        old(reader).wf(),
    ensures
        decoded(
            r,
            old(reader),
            final(reader),
            parse_simple(old(reader).data(), old(reader).position(), kind, revision),
        ),
{
    reveal(parse_simple);
    match kind {
        UnitKind::Fire => {
            reader.need(20)?;
            Ok(
                FullUnit::Fire {
                    revision,
                    lifetime: reader.float(),
                    tile: read_tile(reader),
                    time: reader.float(),
                    x: reader.float(),
                    y: reader.float(),
                },
            )
        },
        UnitKind::Puddle => {
            reader.need(18)?;
            Ok(
                FullUnit::Puddle {
                    revision,
                    amount: reader.float(),
                    liquid: reader.short(),
                    tile: read_tile(reader),
                    x: reader.float(),
                    y: reader.float(),
                },
            )
        },
        UnitKind::WeatherState => {
            reader.need(26)?;
            Ok(
                FullUnit::WeatherState {
                    revision,
                    effect: reader.float(),
                    intensity: reader.float(),
                    life: reader.float(),
                    opacity: reader.float(),
                    weather: reader.short(),
                    wind_x: reader.float(),
                    wind_y: reader.float(),
                },
            )
        },
        _ => Ok(FullUnit::Unknown),
    }
}

/// The entity that starts at `pos`, of the kind that `type_id` names. A
/// signed 16-bit revision comes first where `has_revision` says so. A type
/// byte that names no kind gives `Unknown`, and nothing more is read.
pub open spec fn parse_full_unit(
    s: Seq<u8>,
    pos: int,
    type_id: u8,
    has_revision: bool,
    content: Option<ContentView>,
    tables: TablesView,
) -> Parsed<FullUnitView> {
    let p = pos + width_if(has_revision, 2);
    let revision = value_if(has_revision, i16_at(s, pos));
    let kind = unit_kind(type_id);
    if p > s.len() {
        Err(PacketError::UnexpectedEnd)
    } else if is_generic(kind) {
        parse_generic(s, p, kind, revision, content, tables)
    } else if kind == UnitKind::Player {
        parse_player(s, p, revision)
    } else if kind == UnitKind::WorldLabel {
        parse_label(s, p, revision)
    } else {
        parse_simple(s, p, kind, revision)
    }
}

pub fn read_full_unit(
    reader: &mut Reader,
    type_id: u8,
    has_revision: bool,
    content_map: &Option<ContentMap>,
    tables: &Tables,
) -> (r: Result<FullUnit, PacketError>)
    requires
        old(reader).wf(),
    ensures
        decoded(
            r,
            old(reader),
            final(reader),
            parse_full_unit(
                old(reader).data(),
                old(reader).position(),
                type_id,
                has_revision,
                content_map.deep_view(),
                tables.deep_view(),
            ),
        ),
{
    let revision = if has_revision {
        reader.need(2)?;
        Some(reader.short())
    } else {
        None
    };
    let kind = unit_kind_of(type_id);
    match kind {
        UnitKind::Player => read_player(reader, revision),
        UnitKind::WorldLabel => read_label(reader, revision),
        UnitKind::Fire | UnitKind::Puddle | UnitKind::WeatherState | UnitKind::Unknown => read_simple(
            reader,
            kind,
            revision,
        ),
        _ => read_generic(reader, kind, revision, content_map, tables),
    }
}

/// A copy of a plan.
pub fn copy_plan(plan: &Plan) -> (r: Plan)
    ensures
        r.deep_view() == plan.deep_view(),
{
    Plan {
        plan_type: plan.plan_type,
        position: plan.position,
        block: plan.block,
        rotation: plan.rotation,
        has_config: plan.has_config,
        config: match &plan.config {
            Some(config) => Some(copy_object(config)),
            None => None,
        },
    }
}

/// A copy of a list of plans.
pub fn copy_plans(plans: &Vec<Plan>) -> (r: Vec<Plan>)
    ensures
        r.deep_view() == plans.deep_view(),
{
    let mut r: Vec<Plan> = Vec::new();
    let mut i: usize = 0;
    proof {
        lemma_deep_empty::<Plan>();
    }
    while i < plans.len()
        invariant
            i <= plans.len(),
            deep(r@) == deep(plans@).subrange(0, i as int),
        decreases plans.len() - i,
    {
        let copy = copy_plan(&plans[i]);
        proof {
            lemma_deep_push(r@, copy);
            assert(deep(plans@).subrange(0, i as int).push(plans@[i as int].deep_view())
                =~= deep(plans@).subrange(0, i + 1));
        }
        r.push(copy);
        i += 1;
    }
    proof {
        lemma_deep_vec(r);
        lemma_deep_vec(*plans);
        assert(deep(plans@).subrange(0, i as int) =~= deep(plans@));
    }
    r
}

} // verus!
