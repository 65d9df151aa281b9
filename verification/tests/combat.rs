//! Combat: edge-triggered damage and the full pursue-then-strike scenario.

use rts_core::animation::{Animation, AnimationSet, Animator};
use rts_core::command::{AnimationLock, Attack, AttackEvent, Command};
use rts_core::connection::PlayerId;
use rts_core::geom::Vec2;
use rts_core::movement::execute_attack;
use rts_core::network::NetworkEntityRegistry;
use rts_core::spawnable::{spawn_system, SpawnResource, Spawnable, UnitSpawnable};
use rts_core::unit::{
    MovementSpeed, Unit, UnitInstance, UnitInstanceOperation,
};
use rts_core::unit_animation::{UnitAnimation, UnitAnimationSet, UnitAnimator, UnitDirection};
use rts_core::world::{
    server_tick, AnimationAssets, UnitAnimationAssets, UnitAssets, World,
};

fn same_name_table(name: &str) -> UnitAnimation {
    UnitAnimation {
        up: name.to_owned(),
        up_right: name.to_owned(),
        right: name.to_owned(),
        down_right: name.to_owned(),
        down: name.to_owned(),
        down_left: name.to_owned(),
        left: name.to_owned(),
        up_left: name.to_owned(),
    }
}

fn soldier() -> Unit {
    Unit {
        animation_set: "anim_set".to_owned(),
        unit_animation_set: "unit_anim".to_owned(),
        size: 1000,
        movement_priority: 10,
        attack: Some(Attack {
            range: 50_000,
            engage_range: 60_000,
            animation_lock: AnimationLock { start: 2, end: 6 },
            events: vec![(4, AttackEvent::Damage(10_000))],
        }),
        movement_speed: MovementSpeed::Constant(100_000),
        max_health: 100_000,
    }
}

fn dummy() -> Unit {
    Unit {
        animation_set: "anim_set".to_owned(),
        unit_animation_set: "unit_anim".to_owned(),
        size: 1000,
        movement_priority: 0,
        attack: None,
        movement_speed: MovementSpeed::Constant(0),
        max_health: 100_000,
    }
}

fn assets() -> (UnitAssets, AnimationAssets, UnitAnimationAssets) {
    let mut animations = Vec::new();
    for name in ["idle_up", "idle_anim", "walk_anim", "attack_anim"] {
        animations.push((name.to_owned(), Animation::new(0, 7, 100_000)));
    }
    let animation_set = AnimationSet { animation_textures: Vec::new(), animations };
    let unit_animation_set = UnitAnimationSet {
        animations: vec![
            ("idle".to_owned(), same_name_table("idle_anim")),
            ("walk".to_owned(), same_name_table("walk_anim")),
            ("attack".to_owned(), same_name_table("attack_anim")),
        ],
    };
    (
        UnitAssets {
            entries: vec![
                ("soldier".to_owned(), Some(soldier())),
                ("dummy".to_owned(), Some(dummy())),
            ],
        },
        AnimationAssets { entries: vec![("anim_set".to_owned(), Some(animation_set))] },
        UnitAnimationAssets {
            entries: vec![("unit_anim".to_owned(), Some(unit_animation_set))],
        },
    )
}

#[test]
fn damage_fires_once_per_frame_edge_and_not_on_skipped_frames() {
    let mut direction = UnitDirection::Down;
    let mut unit_animator = UnitAnimator::new("idle".to_owned());
    let mut target = UnitInstance { health: 100_000, operations: Vec::new() };
    let me = Vec2 { x: 0, y: 0 };
    let other = Vec2 { x: 10_000, y: 0 };
    let damage = vec![(0u32, AttackEvent::Damage(5_000)), (2u32, AttackEvent::Damage(7_000))];

    // the frame just changed to 0: its event fires, once
    execute_attack(&mut direction, &mut unit_animator, &mut target, me, other, true, 0, &damage);
    assert_eq!(target.operations, vec![UnitInstanceOperation::SubtractHealth(5_000)]);
    assert_eq!(target.health, 100_000);
    assert_eq!(unit_animator.current_animation, "attack");

    // another tick on the same frame: no frame edge, no second hit
    execute_attack(&mut direction, &mut unit_animator, &mut target, me, other, false, 0, &damage);
    assert_eq!(target.operations.len(), 1);

    // the animator skipped over frame 2 and landed on 3: nothing fires
    execute_attack(&mut direction, &mut unit_animator, &mut target, me, other, true, 3, &damage);
    assert_eq!(target.operations.len(), 1);
}

#[test]
fn animator_advance_reports_frame_edges_exactly() {
    let anim = Animation::new(0, 7, 100_000);
    let mut a = Animator::new(0, "attack_anim".to_owned());
    // half a frame in: still frame 0, and the edge flag falls
    a.advance(50_000, &anim);
    assert_eq!(a.current_frame, 0);
    assert!(!a.current_frame_changed);
    // crossing into frame 1 raises it
    a.advance(60_000, &anim);
    assert_eq!(a.current_frame, 1);
    assert!(a.current_frame_changed);
    // a large step wraps around the eight-frame cycle
    a.advance(800_000, &anim);
    assert_eq!(a.current_frame, 1);
    assert!(!a.current_frame_changed);
}

#[test]
fn pursue_then_strike_scenario() {
    let (unit_assets, animation_assets, unit_animation_assets) = assets();
    let mut world = World::new();
    let mut registry = NetworkEntityRegistry::new();
    let mut spawns = SpawnResource::new();
    // attacker for player 1 at the origin; target for player 2, 500 units east
    spawns.spawn(Spawnable::Unit(UnitSpawnable {
        position: Vec2 { x: 0, y: 0 },
        owner: PlayerId(1),
        unit: "soldier".to_owned(),
    }));
    spawns.spawn(Spawnable::Unit(UnitSpawnable {
        position: Vec2 { x: 500_000, y: 0 },
        owner: PlayerId(2),
        unit: "dummy".to_owned(),
    }));
    let messages = spawn_system(
        &mut world,
        &mut registry,
        &unit_assets,
        &animation_assets,
        &unit_animation_assets,
        &mut spawns,
        true,
    );
    assert_eq!(messages.len(), 2);
    assert_eq!(world.alive.len(), 2);
    let b_net = world.net_entities[1];

    // player 1 orders the attacker to chase and strike the target
    world.queues[0].add_command(Command::Attack {
        target_position: None,
        target_unit: Some(b_net),
        persue: true,
    });

    let mut hits = 0;
    let mut ticks = 0;
    while hits == 0 && ticks < 60 {
        let out = server_tick(
            &mut world,
            &mut registry,
            &unit_assets,
            &animation_assets,
            &unit_animation_assets,
            100_000,
        );
        for m in &out.instance_messages {
            if m.target == b_net {
                assert_eq!(m.operation, UnitInstanceOperation::SubtractHealth(10_000));
                hits += 1;
            }
        }
        ticks += 1;
        // while far away the attacker closes in by ten units a tick
        if ticks == 1 {
            assert_eq!(world.positions[0].position, Vec2 { x: 10_000, y: 0 });
        }
    }
    // exactly one damage event fired, at the configured frame, and the
    // target lost exactly ten health points
    assert_eq!(hits, 1);
    assert_eq!(world.instances[1].health, 90_000);
    assert!(ticks > 45, "the strike cannot land before the chase closes in");
}
