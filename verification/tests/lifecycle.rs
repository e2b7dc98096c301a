use shooter_core::bullet::Collider;
use shooter_core::bullet::SelfDestruct;
use shooter_core::bullet::handle_collision;
use shooter_core::bullet::process_self_destruct;
use shooter_core::enemy::EnemySpawner;
use shooter_core::enemy::enemy_spawner;
use shooter_core::health::Destructable;
use shooter_core::health::destroy_system;
use shooter_core::math::Aabb2d;
use shooter_core::math::Vec2;
use shooter_core::timer::Timer;
use shooter_core::timer::TimerMode;
use shooter_core::world::EntitySlot;
use shooter_core::world::SpawnRequest;
use shooter_core::world::World;

fn empty_world() -> World {
    World::new(EnemySpawner { timer: Timer::from_millis(2000, TimerMode::Repeating) })
}

fn collidable(min_x: i64, min_y: i64, max_x: i64, max_y: i64) -> EntitySlot {
    let mut e = EntitySlot::empty();
    e.collider = Some(Collider {
        aabb: Aabb2d {
            min: Vec2 { x: min_x, y: min_y },
            max: Vec2 { x: max_x, y: max_y },
        },
    });
    e
}

#[test]
fn despawn_requests_are_idempotent() {
    let mut once = empty_world();
    once.spawn(EntitySlot::empty());
    once.spawn(EntitySlot::empty());
    let mut twice = empty_world();
    twice.spawn(EntitySlot::empty());
    twice.spawn(EntitySlot::empty());

    once.request_despawn(0);
    twice.request_despawn(0);
    twice.request_despawn(0);
    once.flush();
    twice.flush();

    // Exactly one removal either way, and no error.
    assert_eq!(once.ents.len(), 2);
    assert_eq!(twice.ents.len(), 2);
    assert!(!once.ents[0].alive);
    assert!(!twice.ents[0].alive);
    assert!(once.ents[1].alive);
    assert!(twice.ents[1].alive);
}

#[test]
fn self_destruct_fires_exactly_when_cumulative_time_reaches_duration() {
    let mut w = empty_world();
    let mut e = EntitySlot::empty();
    e.self_destruct = Some(SelfDestruct { timer: Timer::from_millis(400, TimerMode::Once) });
    w.spawn(e);

    process_self_destruct(&mut w, 200);
    assert_eq!(w.despawns.len(), 0);
    w.flush();
    assert!(w.ents[0].alive);

    process_self_destruct(&mut w, 199);
    assert_eq!(w.despawns.len(), 0);
    w.flush();
    assert!(w.ents[0].alive);

    process_self_destruct(&mut w, 1);
    assert_eq!(w.despawns.len(), 1);
    w.flush();
    assert!(!w.ents[0].alive);
}

#[test]
fn health_at_zero_despawns_positive_health_survives() {
    let mut w = empty_world();
    let mut dying = EntitySlot::empty();
    dying.destructable = Some(Destructable { health: 0 });
    let mut hurt = EntitySlot::empty();
    hurt.destructable = Some(Destructable { health: 1 });
    w.spawn(dying);
    w.spawn(hurt);
    destroy_system(&mut w);
    w.flush();
    assert!(!w.ents[0].alive);
    assert!(w.ents[1].alive);
}

#[test]
fn collision_despawns_both_members_of_an_overlapping_pair() {
    let mut w = empty_world();
    let mut bullet = collidable(-5, -5, 5, 5);
    bullet.player_attack = true;
    let mut enemy = collidable(0, 0, 40, 40);
    enemy.enemy = true;
    enemy.destructable = Some(Destructable { health: 100 });
    let mut bystander = collidable(100, 100, 140, 140);
    bystander.enemy = true;
    w.spawn(bullet);
    w.spawn(enemy);
    w.spawn(bystander);
    handle_collision(&mut w);
    w.flush();
    assert!(!w.ents[0].alive);
    assert!(!w.ents[1].alive);
    assert!(w.ents[2].alive);
    // Collision bypasses health: the enemy died with full health.
    assert_eq!(w.ents[1].destructable.unwrap().health, 100);
}

#[test]
fn touching_colliders_count_as_overlap() {
    let mut w = empty_world();
    let mut bullet = collidable(-5, -5, 5, 5);
    bullet.player_attack = true;
    let mut enemy = collidable(5, -5, 15, 5);
    enemy.enemy = true;
    w.spawn(bullet);
    w.spawn(enemy);
    handle_collision(&mut w);
    w.flush();
    assert!(!w.ents[0].alive);
    assert!(!w.ents[1].alive);
}

#[test]
fn enemy_spawner_spawns_once_per_elapsed_period() {
    // A 2.0 s repeating spawner: after one period, one new enemy; after
    // 4.0 s in total, two.
    let mut w = empty_world();
    enemy_spawner(&mut w, 1000);
    assert_eq!(w.spawns.len(), 0);
    enemy_spawner(&mut w, 1000);
    assert_eq!(w.spawns.len(), 1);
    w.flush();
    assert_eq!(enemy_count(&w), 1);
    enemy_spawner(&mut w, 1000);
    assert_eq!(w.spawns.len(), 0);
    enemy_spawner(&mut w, 1000);
    w.flush();
    assert_eq!(enemy_count(&w), 2);
}

#[test]
fn spawned_enemies_stay_inside_the_spawning_bounds() {
    let mut w = empty_world();
    for _ in 0..50 {
        shooter_core::enemy::initialize_enemy(&mut w);
    }
    for req in &w.spawns {
        match req {
            SpawnRequest::Enemy(b) => {
                assert!(-200 <= b.position.vector.x && b.position.vector.x <= 200);
                assert!(-200 <= b.position.vector.y && b.position.vector.y <= 200);
                assert!(-20 <= b.velocity.vector.x && b.velocity.vector.x <= 20);
                assert!(-20 <= b.velocity.vector.y && b.velocity.vector.y <= 20);
                assert_eq!(b.destructable.health, 100);
                assert_eq!(b.sprite_size, Vec2 { x: 40, y: 40 });
            }
            _ => panic!("expected an enemy spawn"),
        }
    }
    w.flush();
    assert_eq!(enemy_count(&w), 50);
}

fn enemy_count(w: &World) -> usize {
    let mut c: usize = 0;
    for e in &w.ents {
        if e.alive && e.enemy {
            c += 1;
        }
    }
    c
}
