use shooter_core::enemy::EnemySpawner;
use shooter_core::math::Vec2;
use shooter_core::movement::Acceleration;
use shooter_core::movement::Drag;
use shooter_core::movement::Position;
use shooter_core::movement::Velocity;
use shooter_core::movement::fixed_step;
use shooter_core::timer::Timer;
use shooter_core::timer::TimerMode;
use shooter_core::world::EntitySlot;
use shooter_core::world::World;

fn empty_world() -> World {
    World::new(EnemySpawner { timer: Timer::from_millis(2000, TimerMode::Repeating) })
}

fn moving_entity(px: i64, py: i64, vx: i64, vy: i64, ax: i64, ay: i64, drag: i64) -> EntitySlot {
    let mut e = EntitySlot::empty();
    e.position = Some(Position { vector: Vec2 { x: px, y: py } });
    e.velocity = Some(Velocity { vector: Vec2 { x: vx, y: vy } });
    e.acceleration = Some(Acceleration { vector: Vec2 { x: ax, y: ay } });
    e.drag = Some(Drag { value: drag });
    e
}

#[test]
fn integrator_is_semi_implicit_with_deferred_drag() {
    // One step of dt = 100 ms:
    //   velocity' = v + a*dt = (10,-20) + (50,30)*0.1 = (15,-17)
    //   position' = p + velocity'*dt = (100,50) + (15,-17)*0.1 -> (101,49)
    //   only then drag: velocity'' = velocity' * (1 - 3*0.1) -> (10,-11)
    let mut w = empty_world();
    w.spawn(moving_entity(100, 50, 10, -20, 50, 30, 3));
    fixed_step(&mut w, 100);
    let e = &w.ents[0];
    assert_eq!(e.position.unwrap().vector, Vec2 { x: 101, y: 49 });
    assert_eq!(e.velocity.unwrap().vector, Vec2 { x: 10, y: -11 });
}

#[test]
fn displacement_uses_the_same_steps_accelerated_velocity() {
    // From rest, one step still moves the entity: semi-implicit integration.
    let mut w = empty_world();
    w.spawn(moving_entity(0, 0, 0, 0, 1000, 0, 0));
    fixed_step(&mut w, 500);
    let e = &w.ents[0];
    assert_eq!(e.velocity.unwrap().vector, Vec2 { x: 500, y: 0 });
    assert_eq!(e.position.unwrap().vector, Vec2 { x: 250, y: 0 });
}

#[test]
fn transform_and_collider_resync_from_position() {
    let mut w = empty_world();
    let mut e = moving_entity(100, 50, 10, 0, 0, 0, 0);
    e.sprite_size = Some(Vec2 { x: 40, y: 20 });
    e.transform = Some(shooter_core::math::Transform {
        translation: shooter_core::math::Vec3 { x: 0, y: 0, z: 7 },
        scale_num: 1,
        scale_den: 1,
    });
    e.collider = Some(shooter_core::bullet::Collider {
        aabb: shooter_core::math::Aabb2d {
            min: Vec2 { x: 0, y: 0 },
            max: Vec2 { x: 0, y: 0 },
        },
    });
    w.spawn(e);
    fixed_step(&mut w, 100);
    let e = &w.ents[0];
    // position advanced by 10 * 0.1 = 1
    assert_eq!(e.position.unwrap().vector, Vec2 { x: 101, y: 50 });
    // the transform copies the position, depth untouched
    let t = e.transform.unwrap();
    assert_eq!(t.translation.x, 101);
    assert_eq!(t.translation.y, 50);
    assert_eq!(t.translation.z, 7);
    // the collider recenters with half-extents 20 (width) and 10 (height)
    let aabb = e.collider.unwrap().aabb;
    assert_eq!(aabb.min, Vec2 { x: 81, y: 40 });
    assert_eq!(aabb.max, Vec2 { x: 121, y: 60 });
}

#[test]
fn static_entities_are_left_alone() {
    // No velocity: excluded from every stage, including the resyncs.
    let mut w = empty_world();
    let mut e = EntitySlot::empty();
    e.position = Some(Position { vector: Vec2 { x: 5, y: 5 } });
    e.acceleration = Some(Acceleration { vector: Vec2 { x: 100, y: 100 } });
    w.spawn(e);
    fixed_step(&mut w, 1000);
    let e = &w.ents[0];
    assert_eq!(e.position.unwrap().vector, Vec2 { x: 5, y: 5 });
    assert!(e.velocity.is_none());
}
