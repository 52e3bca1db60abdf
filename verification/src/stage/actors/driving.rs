//! Moves actors around the stage based on player input.
use super::Mode;
use crate::engine::{self, Context, Entity, StorageKind, SystemKind};
use vstd::prelude::*;

verus! {

/// Component that marks an actor as driven by input.
#[derive(Clone, Copy, Debug, Default)]
pub struct Driven;

/// System that moves driven actors and sets their mode.
#[derive(Clone, Copy, Debug, Default)]
pub struct Driver;

/// The buttons that steer a driven actor.
#[derive(Clone, Copy, Debug)]
pub struct Steering {
    pub up: bool,
    pub left: bool,
    pub down: bool,
    pub right: bool,
}

/// What the driver decides for one actor: the direction of movement on the
/// stage's x and y axes (each -1, 0 or 1) and the actor's mode.
#[derive(Clone, Copy, Debug)]
pub struct Drive {
    pub x: i8,
    pub y: i8,
    pub mode: Mode,
}

/// Value of a pressed button along an axis.
pub open spec fn button_value(pressed: bool) -> int {
    if pressed {
        1
    } else {
        0
    }
}

/// Decides the movement of a driven actor from the pressed buttons.
///
/// Up moves north (negative y), left moves west (negative x), down moves
/// south and right moves east; opposite buttons cancel. An actor that does
/// not move is idle, one that moves walks. The application normalizes the
/// direction and scales it by the template's walking speed.
pub fn steer(steering: Steering) -> (drive: Drive)
    ensures
        drive.x == button_value(steering.right) - button_value(steering.left),
        drive.y == button_value(steering.down) - button_value(steering.up),
        drive.mode == (if drive.x == 0 && drive.y == 0 {
            Mode::Idle
        } else {
            Mode::Walk
        }),
{
    let mut x: i8 = 0;
    let mut y: i8 = 0;
    if steering.up {
        y = y - 1;
    }
    if steering.left {
        x = x - 1;
    }
    if steering.down {
        y = y + 1;
    }
    if steering.right {
        x = x + 1;
    }
    let mode = if x == 0 && y == 0 {
        Mode::Idle
    } else {
        Mode::Walk
    };
    Drive { x, y, mode }
}

/// Name under which the driver system is registered.
pub open spec fn driver_name() -> Seq<char> {
    "stage::actors::driving::Driver"@
}

/// Registers the storage of driven markers and the driver system.
pub fn init(ctx: &mut Context)
    requires
        !old(ctx).has_system_named(driver_name()),
    ensures
        final(ctx).storages@ == engine::spec_add_storage(old(ctx).storages@, StorageKind::Driven),
        final(ctx).systems@.len() == old(ctx).systems@.len() + 1,
        final(ctx).systems@.drop_last() == old(ctx).systems@,
        final(ctx).systems@.last().kind == SystemKind::Driver,
        final(ctx).systems@.last().name@ == driver_name(),
        final(ctx).driven@ == old(ctx).driven@,
        final(ctx).resources@ == old(ctx).resources@,
        old(ctx).wf() ==> final(ctx).wf(),
{
    engine::add_storage(ctx, StorageKind::Driven);
    engine::add_system(ctx, SystemKind::Driver, "stage::actors::driving::Driver", &[]);
}

/// The driven entities after `entity` is marked as driven.
pub open spec fn spec_drive(driven: Seq<Entity>, entity: Entity) -> Seq<Entity> {
    if driven.contains(entity) {
        driven
    } else {
        driven.push(entity)
    }
}

/// Driving an entity twice is the same as driving it once, and a driven
/// entity stays driven.
pub proof fn lemma_drive_idempotent(driven: Seq<Entity>, entity: Entity)
    ensures
        spec_drive(spec_drive(driven, entity), entity) == spec_drive(driven, entity),
        spec_drive(driven, entity).contains(entity),
{
    let once = spec_drive(driven, entity);
    if !driven.contains(entity) {
        assert(once[once.len() - 1] == entity);
    }
}

/// Marks `entity` as driven by input; marking it again changes nothing.
pub fn drive(ctx: &mut Context, entity: Entity)
    requires
        old(ctx).has_storage(StorageKind::Driven),
    ensures
        final(ctx).driven@ == spec_drive(old(ctx).driven@, entity),
        final(ctx).driven@.to_set() == old(ctx).driven@.to_set().insert(entity),
        final(ctx).storages@ == old(ctx).storages@,
        final(ctx).resources@ == old(ctx).resources@,
        final(ctx).systems@ == old(ctx).systems@,
        old(ctx).wf() ==> final(ctx).wf(),
{
    let mut i: usize = 0;
    while i < ctx.driven.len()
        invariant
            i <= ctx.driven@.len(),
            ctx.driven@ == old(ctx).driven@,
            ctx.storages@ == old(ctx).storages@,
            ctx.resources@ == old(ctx).resources@,
            ctx.systems@ == old(ctx).systems@,
            forall|j: int| 0 <= j < i ==> ctx.driven@[j] != entity,
        decreases ctx.driven@.len() - i,
    {
        if ctx.driven[i] == entity {
            proof {
                assert(ctx.driven@.to_set() =~= old(ctx).driven@.to_set().insert(entity));
            }
            return;
        }
        i = i + 1;
    }
    ctx.driven.push(entity);
    proof {
        broadcast use vstd::seq_lib::group_seq_properties;

        assert(ctx.driven@ == old(ctx).driven@.push(entity));
        assert(ctx.driven@.to_set() =~= old(ctx).driven@.to_set().insert(entity));
    }
}

} // verus!
