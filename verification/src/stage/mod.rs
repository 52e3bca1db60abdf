//! The stage: the physical world of a top-down 2D game.
//!
//! An entity on the stage has a position in world coordinates; the `motion`
//! module moves entities by their velocities, and the `direction` module maps
//! movement onto the compass directions that sprites can face.
pub mod actors;
pub mod graphics;
pub mod objects;

mod direction;
mod motion;

pub use self::direction::{lemma_compass_index_bijective, CompassDirection, COMPASS_DIRECTION_COUNT};
pub use self::motion::Mover;

use crate::engine::{self, spec_add_storage, Context, StorageKind, SystemKind};
use vstd::prelude::*;

verus! {

/// Name under which the mover system is registered.
pub open spec fn mover_name() -> Seq<char> {
    "stage::Mover"@
}

/// The storages registered after the stage is initialized on top of
/// `storages`: positions, velocities, objects and driven markers, each once.
pub open spec fn stage_storages(storages: Seq<StorageKind>) -> Seq<StorageKind> {
    spec_add_storage(
        spec_add_storage(
            spec_add_storage(spec_add_storage(storages, StorageKind::Position), StorageKind::Velocity),
            StorageKind::Object,
        ),
        StorageKind::Driven,
    )
}

/// Initializes the stage: registers the position and velocity storages and
/// the mover system, then initializes objects and actors.
pub fn init(ctx: &mut Context)
    requires
        !old(ctx).has_system_named(mover_name()),
        !old(ctx).has_system_named(actors::driving::driver_name()),
    ensures
        final(ctx).storages@ == stage_storages(old(ctx).storages@),
        final(ctx).systems@.len() == old(ctx).systems@.len() + 2,
        final(ctx).systems@.take(old(ctx).systems@.len() as int) == old(ctx).systems@,
        final(ctx).systems@[old(ctx).systems@.len() as int].kind == SystemKind::Mover,
        final(ctx).systems@[old(ctx).systems@.len() as int].name@ == mover_name(),
        final(ctx).systems@.last().kind == SystemKind::Driver,
        final(ctx).systems@.last().name@ == actors::driving::driver_name(),
        final(ctx).driven@ == old(ctx).driven@,
        final(ctx).resources@ == old(ctx).resources@,
        old(ctx).wf() ==> final(ctx).wf(),
{
    let ghost start = ctx.systems@;
    engine::add_storage(ctx, StorageKind::Position);
    engine::add_storage(ctx, StorageKind::Velocity);
    engine::add_system(ctx, SystemKind::Mover, "stage::Mover", &[]);
    let ghost with_mover = ctx.systems@;
    proof {
        assert(mover_name() != actors::driving::driver_name()) by {
            reveal_strlit("stage::Mover");
            reveal_strlit("stage::actors::driving::Driver");
            assert(mover_name().len() != actors::driving::driver_name().len());
        }
        assert(ctx.system_names() == old(ctx).system_names().push(mover_name()));
        if ctx.has_system_named(actors::driving::driver_name()) {
            let k: int = choose|k: int|
                0 <= k < ctx.system_names().len() && ctx.system_names()[k] == actors::driving::driver_name();
            if k < old(ctx).system_names().len() {
                assert(old(ctx).system_names()[k] == actors::driving::driver_name());
            }
        }
    }
    objects::init(ctx);
    actors::init(ctx);
    proof {
        assert(ctx.systems@.drop_last() == with_mover);
        assert(with_mover.drop_last() == start);
        assert(ctx.systems@.take(start.len() as int) =~= start);
        assert(ctx.systems@[start.len() as int] == with_mover[start.len() as int]);
    }
}

} // verus!
