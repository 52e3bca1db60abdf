use tvb::engine::{add_resource, add_storage, add_system, has_system, Context, ResourceKind, StorageKind, SystemKind};
use tvb::stage;
use tvb::stage::actors::driving::{self, steer, Driven, Driver, Steering};
use tvb::stage::actors::Mode;
use tvb::stage::graphics::actors::{self as graphics_actors, animation_for_mode};
use tvb::stage::graphics::objects::{get_animation_sequence, wrap_frame, Animator, DrawState};
use tvb::stage::objects::{self, find_animation, Animation};
use tvb::stage::{CompassDirection, Mover, COMPASS_DIRECTION_COUNT};

#[test]
fn compass_directions_have_indices_and_names() {
    assert_eq!(COMPASS_DIRECTION_COUNT, 8);
    assert_eq!(CompassDirection::default(), CompassDirection::South);
    let names = ["south", "southwest", "west", "northwest", "north", "northeast", "east", "southeast"];
    for i in 0..COMPASS_DIRECTION_COUNT {
        let d = CompassDirection::from_index(i).unwrap();
        assert_eq!(d.index(), i);
        assert_eq!(d.name(), names[i]);
    }
    assert_eq!(CompassDirection::from_index(8), None);
    assert_eq!(CompassDirection::West.index(), 2);
}

#[test]
fn engine_storages_register_once() {
    let mut ctx = Context::new();
    add_storage(&mut ctx, StorageKind::Position);
    add_storage(&mut ctx, StorageKind::Velocity);
    add_storage(&mut ctx, StorageKind::Position);
    assert_eq!(ctx.storages, vec![StorageKind::Position, StorageKind::Velocity]);
}

#[test]
fn engine_systems_are_named() {
    let mut ctx = Context::new();
    assert!(!has_system(&ctx, "stage::Mover"));
    add_system(&mut ctx, SystemKind::Mover, "stage::Mover", &[]);
    assert!(has_system(&ctx, "stage::Mover"));
    assert!(!has_system(&ctx, "stage::Move"));
    assert_eq!(ctx.systems.len(), 1);
    assert_eq!(ctx.systems[0].name, "stage::Mover");
    assert_eq!(ctx.systems[0].kind, SystemKind::Mover);
}

#[test]
fn driving_init_and_drive() {
    let _ = (Driven, Driver, Mover);
    let mut ctx = Context::new();
    driving::init(&mut ctx);
    assert_eq!(ctx.storages, vec![StorageKind::Driven]);
    assert_eq!(ctx.systems.len(), 1);
    assert_eq!(ctx.systems[0].kind, SystemKind::Driver);
    assert_eq!(ctx.systems[0].name, "stage::actors::driving::Driver");
    driving::drive(&mut ctx, 7);
    driving::drive(&mut ctx, 3);
    driving::drive(&mut ctx, 7);
    assert_eq!(ctx.driven, vec![7, 3]);
}

#[test]
fn objects_and_actor_graphics_init() {
    let mut ctx = Context::new();
    objects::init(&mut ctx);
    objects::init(&mut ctx);
    assert_eq!(ctx.storages, vec![StorageKind::Object]);
    graphics_actors::init(&mut ctx);
    assert_eq!(ctx.systems.len(), 1);
    assert_eq!(ctx.systems[0].kind, SystemKind::ActorAnimator);
    assert_eq!(ctx.systems[0].name, "stage::visuals::actors::Animator");
}

fn steering(up: bool, left: bool, down: bool, right: bool) -> Steering {
    Steering { up, left, down, right }
}

#[test]
fn steering_from_buttons() {
    let d = steer(steering(false, false, false, false));
    assert_eq!((d.x, d.y, d.mode), (0, 0, Mode::Idle));
    let d = steer(steering(true, false, false, false));
    assert_eq!((d.x, d.y, d.mode), (0, -1, Mode::Walk));
    let d = steer(steering(false, true, true, false));
    assert_eq!((d.x, d.y, d.mode), (-1, 1, Mode::Walk));
    let d = steer(steering(true, true, true, true));
    assert_eq!((d.x, d.y, d.mode), (0, 0, Mode::Idle));
    let d = steer(steering(false, false, false, true));
    assert_eq!((d.x, d.y, d.mode), (1, 0, Mode::Walk));
}

#[test]
fn mode_indices() {
    assert_eq!(Mode::Idle.index(), 0);
    assert_eq!(Mode::Walk.index(), 1);
}

#[test]
fn animation_switches_only_on_change() {
    let modes = vec![4, 9];
    assert_eq!(animation_for_mode(&modes, Mode::Idle, 4), None);
    assert_eq!(animation_for_mode(&modes, Mode::Walk, 4), Some(9));
    assert_eq!(animation_for_mode(&modes, Mode::Idle, 9), Some(4));
}

fn animations() -> Vec<Animation<u8>> {
    vec![
        Animation { name: "idle".to_string(), sequences: vec![Some(vec![1, 2]), None] },
        Animation { name: "walk".to_string(), sequences: vec![None, Some(vec![3])] },
        Animation { name: "walk".to_string(), sequences: vec![] },
    ]
}

#[test]
fn find_animation_by_name() {
    let anims = animations();
    assert_eq!(find_animation(&anims, "idle"), 0);
    assert_eq!(find_animation(&anims, "walk"), 1);
    assert_eq!(find_animation(&anims, "run"), 0);
    assert_eq!(find_animation::<u8>(&Vec::new(), "idle"), 0);
}

#[test]
fn animation_sequences_by_index() {
    let anims = animations();
    assert_eq!(get_animation_sequence(&anims, 0, 0), Some(&vec![1, 2]));
    assert_eq!(get_animation_sequence(&anims, 0, 1), None);
    assert_eq!(get_animation_sequence(&anims, 1, 1), Some(&vec![3]));
    assert_eq!(get_animation_sequence(&anims, 2, 0), None);
    assert_eq!(get_animation_sequence(&anims, 3, 0), None);
}

#[test]
fn frames_wrap_around() {
    let _ = Animator;
    assert_eq!(wrap_frame(0, 3), 0);
    assert_eq!(wrap_frame(3, 3), 0);
    assert_eq!(wrap_frame(7, 3), 1);
    assert_eq!(wrap_frame(2, 1), 0);
}

#[test]
fn draw_state_starts_empty() {
    let s = DrawState::default();
    assert!(s.entities.is_empty());
}

#[test]
fn stage_init_registers_storages_and_systems() {
    let mut ctx = Context::new();
    tvb::stage::init(&mut ctx);
    assert_eq!(
        ctx.storages,
        vec![StorageKind::Position, StorageKind::Velocity, StorageKind::Object, StorageKind::Driven]
    );
    assert_eq!(ctx.systems.len(), 2);
    assert_eq!(ctx.systems[0].kind, SystemKind::Mover);
    assert_eq!(ctx.systems[0].name, "stage::Mover");
    assert_eq!(ctx.systems[1].kind, SystemKind::Driver);
    assert_eq!(ctx.systems[1].name, "stage::actors::driving::Driver");
    assert!(ctx.driven.is_empty());
}

#[test]
fn stage_graphics_and_actor_inits() {
    let mut ctx = Context::new();
    tvb::stage::graphics::init(&mut ctx);
    assert_eq!(ctx.systems.len(), 1);
    assert_eq!(ctx.systems[0].kind, SystemKind::ActorAnimator);
    assert!(ctx.storages.is_empty());
    tvb::stage::actors::init(&mut ctx);
    assert_eq!(ctx.systems.len(), 2);
    assert_eq!(ctx.systems[1].kind, SystemKind::Driver);
    assert_eq!(ctx.storages, vec![StorageKind::Driven]);
}

#[test]
fn engine_systems_record_dependencies() {
    let mut ctx = Context::new();
    add_system(&mut ctx, SystemKind::Mover, "stage::Mover", &[]);
    add_system(&mut ctx, SystemKind::Driver, "stage::actors::driving::Driver", &["stage::Mover"]);
    assert!(ctx.systems[0].dependencies.is_empty());
    assert_eq!(ctx.systems[1].dependencies, vec!["stage::Mover".to_string()]);
    add_system(&mut ctx, SystemKind::ActorAnimator, "", &["stage::Mover", "stage::actors::driving::Driver"]);
    add_system(&mut ctx, SystemKind::ActorAnimator, "", &[]);
    assert_eq!(ctx.systems.len(), 4);
    assert_eq!(ctx.systems[2].name, "");
    assert_eq!(ctx.systems[2].dependencies.len(), 2);
    assert_eq!(ctx.systems[3].name, "");
}

#[test]
fn engine_resources_register_once() {
    let mut ctx = Context::new();
    add_resource(&mut ctx, ResourceKind::Camera);
    add_resource(&mut ctx, ResourceKind::Camera);
    assert_eq!(ctx.resources, vec![ResourceKind::Camera]);
    assert!(ctx.storages.is_empty());
    assert!(ctx.systems.is_empty());
}

#[test]
fn stage_graphics_init_adds_camera_and_animator() {
    let mut ctx = Context::new();
    stage::graphics::init(&mut ctx);
    assert_eq!(ctx.resources, vec![ResourceKind::Camera]);
    assert_eq!(ctx.systems.len(), 1);
    assert_eq!(ctx.systems[0].kind, SystemKind::ActorAnimator);
    assert_eq!(ctx.systems[0].name, "stage::visuals::actors::Animator");
    assert!(ctx.storages.is_empty());
}
