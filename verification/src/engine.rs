//! The engine context that the game's modules register themselves with.
//!
//! Each module's `init` adds the component storages, resources and systems it
//! needs. The context records those registrations: a storage or a resource is
//! registered at most once (registering it again does nothing; a resource's
//! value is then replaced, which is not recorded here), and every system has
//! a name that no other system has.
use vstd::prelude::*;

verus! {

/// An entity of the game world, identified by its number.
pub type Entity = u64;

/// The component storages that the stage registers.
#[derive(Clone, Copy, Debug, PartialEq, Eq, Structural)]
pub enum StorageKind {
    Position,
    Velocity,
    Object,
    Driven,
}

/// The resources that the stage registers.
#[derive(Clone, Copy, Debug, PartialEq, Eq, Structural)]
pub enum ResourceKind {
    /// The camera that the stage is drawn from.
    Camera,
}

/// The systems that the stage registers.
#[derive(Clone, Copy, Debug, PartialEq, Eq, Structural)]
pub enum SystemKind {
    Mover,
    Driver,
    ActorAnimator,
}

/// A registered system, the name it was registered under and the names of
/// the systems it runs after.
#[derive(Debug)]
pub struct SystemRecord {
    pub kind: SystemKind,
    pub name: String,
    pub dependencies: Vec<String>,
}

/// The registrations made so far, and the entities that are driven by input.
#[derive(Debug)]
pub struct Context {
    pub storages: Vec<StorageKind>,
    pub resources: Vec<ResourceKind>,
    pub systems: Vec<SystemRecord>,
    pub driven: Vec<Entity>,
}

impl Context {
    /// A context with nothing registered.
    pub fn new() -> (ctx: Context)
        ensures
            ctx.storages@.len() == 0,
            ctx.resources@.len() == 0,
            ctx.systems@.len() == 0,
            ctx.driven@.len() == 0,
            ctx.wf(),
    {
        let ctx = Context {
            storages: Vec::new(),
            resources: Vec::new(),
            systems: Vec::new(),
            driven: Vec::new(),
        };
        proof {
            assert(ctx.system_names() =~= Seq::<Seq<char>>::empty());
        }
        ctx
    }

    /// Each storage and each resource is registered once, each system name
    /// but the empty one is used once and each entity is marked as driven
    /// once.
    pub open spec fn wf(&self) -> bool {
        &&& self.storages@.no_duplicates()
        &&& self.resources@.no_duplicates()
        &&& unique_names(self.system_names())
        &&& self.driven@.no_duplicates()
    }

    /// The names of the registered systems, in registration order.
    pub open spec fn system_names(&self) -> Seq<Seq<char>> {
        self.systems@.map_values(|r: SystemRecord| r.name@)
    }

    /// Whether a system is registered under `name`.
    pub open spec fn has_system_named(&self, name: Seq<char>) -> bool {
        self.system_names().contains(name)
    }

    /// Whether the resource `kind` is registered.
    pub open spec fn has_resource(&self, kind: ResourceKind) -> bool {
        self.resources@.contains(kind)
    }

    /// Whether the storage `kind` is registered.
    pub open spec fn has_storage(&self, kind: StorageKind) -> bool {
        self.storages@.contains(kind)
    }
}

/// Whether no name but the empty one occurs twice in `names`.
pub open spec fn unique_names(names: Seq<Seq<char>>) -> bool {
    forall|a: int, b: int| 0 <= a < b < names.len() && names[a] == names[b] ==> names[a].len() == 0
}

/// The registered storages after registering `kind`.
pub open spec fn spec_add_storage(storages: Seq<StorageKind>, kind: StorageKind) -> Seq<StorageKind> {
    if storages.contains(kind) {
        storages
    } else {
        storages.push(kind)
    }
}

/// Registering a storage a second time changes nothing, and a registered
/// storage stays registered.
pub proof fn lemma_add_storage_idempotent(storages: Seq<StorageKind>, kind: StorageKind, other: StorageKind)
    ensures
        spec_add_storage(spec_add_storage(storages, kind), kind) == spec_add_storage(storages, kind),
        spec_add_storage(storages, kind).contains(kind),
        storages.contains(other) ==> spec_add_storage(storages, kind).contains(other),
{
    let once = spec_add_storage(storages, kind);
    if !storages.contains(kind) {
        assert(once[once.len() - 1] == kind);
    }
    if storages.contains(other) {
        let i: int = choose|i: int| 0 <= i < storages.len() && storages[i] == other;
        assert(once[i] == other);
    }
}

/// Registers the storage `kind`; does nothing if it is already registered.
pub fn add_storage(ctx: &mut Context, kind: StorageKind)
    ensures
        final(ctx).storages@ == spec_add_storage(old(ctx).storages@, kind),
        old(ctx).wf() ==> final(ctx).wf(),
        final(ctx).systems@ == old(ctx).systems@,
        final(ctx).driven@ == old(ctx).driven@,
        final(ctx).resources@ == old(ctx).resources@,
{
    let mut i: usize = 0;
    while i < ctx.storages.len()
        invariant
            i <= ctx.storages@.len(),
            ctx.storages@ == old(ctx).storages@,
            ctx.resources@ == old(ctx).resources@,
            ctx.systems@ == old(ctx).systems@,
            ctx.driven@ == old(ctx).driven@,
            forall|j: int| 0 <= j < i ==> ctx.storages@[j] != kind,
        decreases ctx.storages@.len() - i,
    {
        if ctx.storages[i] == kind {
            return;
        }
        i = i + 1;
    }
    ctx.storages.push(kind);
}

/// The registered resources after registering `kind`.
pub open spec fn spec_add_resource(resources: Seq<ResourceKind>, kind: ResourceKind) -> Seq<ResourceKind> {
    if resources.contains(kind) {
        resources
    } else {
        resources.push(kind)
    }
}

/// Registering a resource a second time changes nothing, and a registered
/// resource stays registered.
pub proof fn lemma_add_resource_idempotent(resources: Seq<ResourceKind>, kind: ResourceKind, other: ResourceKind)
    ensures
        spec_add_resource(spec_add_resource(resources, kind), kind) == spec_add_resource(resources, kind),
        spec_add_resource(resources, kind).contains(kind),
        resources.contains(other) ==> spec_add_resource(resources, kind).contains(other),
{
    let once = spec_add_resource(resources, kind);
    if !resources.contains(kind) {
        assert(once[once.len() - 1] == kind);
    }
    if resources.contains(other) {
        let i: int = choose|i: int| 0 <= i < resources.len() && resources[i] == other;
        assert(once[i] == other);
    }
}

/// Registers the resource `kind`; when it is already registered, only its
/// value is replaced.
pub fn add_resource(ctx: &mut Context, kind: ResourceKind)
    ensures
        final(ctx).resources@ == spec_add_resource(old(ctx).resources@, kind),
        old(ctx).wf() ==> final(ctx).wf(),
        final(ctx).storages@ == old(ctx).storages@,
        final(ctx).systems@ == old(ctx).systems@,
        final(ctx).driven@ == old(ctx).driven@,
{
    let mut i: usize = 0;
    while i < ctx.resources.len()
        invariant
            i <= ctx.resources@.len(),
            ctx.storages@ == old(ctx).storages@,
            ctx.resources@ == old(ctx).resources@,
            ctx.systems@ == old(ctx).systems@,
            ctx.driven@ == old(ctx).driven@,
            forall|j: int| 0 <= j < i ==> ctx.resources@[j] != kind,
        decreases ctx.resources@.len() - i,
    {
        if ctx.resources[i] == kind {
            return;
        }
        i = i + 1;
    }
    ctx.resources.push(kind);
}

/// Whether a system is registered under the name `name`.
pub fn has_system(ctx: &Context, name: &str) -> (found: bool)
    ensures
        found == ctx.has_system_named(name@),
{
    let target = name.to_owned();
    let mut i: usize = 0;
    while i < ctx.systems.len()
        invariant
            i <= ctx.systems@.len(),
            target@ == name@,
            forall|j: int| 0 <= j < i ==> ctx.systems@[j].name@ != name@,
        decreases ctx.systems@.len() - i,
    {
        if ctx.systems[i].name == target {
            assert(ctx.system_names()[i as int] == name@);
            return true;
        }
        i = i + 1;
    }
    assert forall|n: Seq<char>| ctx.system_names().contains(n) implies n != name@ by {
        let j: int = choose|j: int| 0 <= j < ctx.system_names().len() && ctx.system_names()[j] == n;
        assert(ctx.systems@[j].name@ == n);
    }
    false
}

/// The names held by `names`.
pub open spec fn views_of(names: Seq<String>) -> Seq<Seq<char>> {
    names.map_values(|n: String| n@)
}

/// Registers the system `kind` under `name`, to run after the systems named
/// in `dependencies`.
///
/// A system may go without a name (the empty name), and then no system can
/// depend on it. Other names are unique: registering a second system under a
/// name already in use, or depending on a system that is not registered, is a
/// programming error of the caller.
pub fn add_system(ctx: &mut Context, kind: SystemKind, name: &str, dependencies: &[&str])
    requires
        name@.len() == 0 || !old(ctx).has_system_named(name@),
        forall|i: int|
            0 <= i < dependencies@.len() ==> (#[trigger] dependencies@[i])@.len() > 0
                && old(ctx).has_system_named(dependencies@[i]@),
    ensures
        final(ctx).systems@.len() == old(ctx).systems@.len() + 1,
        final(ctx).systems@.drop_last() == old(ctx).systems@,
        final(ctx).systems@.last().kind == kind,
        final(ctx).systems@.last().name@ == name@,
        views_of(final(ctx).systems@.last().dependencies@) == dependencies@.map_values(|d: &str| d@),
        final(ctx).system_names() == old(ctx).system_names().push(name@),
        old(ctx).wf() ==> final(ctx).wf(),
        final(ctx).storages@ == old(ctx).storages@,
        final(ctx).driven@ == old(ctx).driven@,
        final(ctx).resources@ == old(ctx).resources@,
{
    let mut names: Vec<String> = Vec::new();
    let mut i: usize = 0;
    while i < dependencies.len()
        invariant
            i <= dependencies@.len(),
            views_of(names@) == dependencies@.take(i as int).map_values(|d: &str| d@),
        decreases dependencies@.len() - i,
    {
        let ghost before = names@;
        let owned = dependencies[i].to_owned();
        names.push(owned);
        proof {
            assert(dependencies@.take(i + 1) =~= dependencies@.take(i as int).push(dependencies@[i as int]));
            assert(names@ == before.push(owned));
            assert(views_of(names@) =~= views_of(before).push(owned@));
            assert(views_of(names@) =~= dependencies@.take(i + 1).map_values(|d: &str| d@));
        }
        i = i + 1;
    }
    proof {
        assert(dependencies@.take(dependencies@.len() as int) =~= dependencies@);
    }
    ctx.systems.push(SystemRecord { kind, name: name.to_owned(), dependencies: names });
    proof {
        assert(ctx.systems@.drop_last() =~= old(ctx).systems@);
        assert(ctx.system_names() =~= old(ctx).system_names().push(name@));
        if old(ctx).wf() {
            let before = old(ctx).system_names();
            let after = ctx.system_names();
            assert forall|a: int, b: int|
                0 <= a < b < after.len() && after[a] == after[b] implies after[a].len() == 0 by {
                if b == before.len() && name@.len() > 0 {
                    assert(before[a] == name@);
                    assert(before.contains(name@));
                } else if b < before.len() {
                    assert(after[a] == before[a] && after[b] == before[b]);
                }
            }
        }
    }
}

} // verus!
