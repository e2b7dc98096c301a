use shooter_core::camera;
use shooter_core::camera::handle_left_mouse_button;
use shooter_core::camera::on_window_resized;
use shooter_core::camera::update_camera_position;
use shooter_core::camera::update_camera_target;
use shooter_core::enemy::EnemySpawner;
use shooter_core::math::Transform;
use shooter_core::math::Vec2;
use shooter_core::math::Vec3;
use shooter_core::movement::Position;
use shooter_core::player;
use shooter_core::player::PlayerInput;
use shooter_core::player::apply_player_control;
use shooter_core::timer::Timer;
use shooter_core::timer::TimerMode;
use shooter_core::world::EntitySlot;
use shooter_core::world::SpawnRequest;
use shooter_core::world::World;

fn empty_world() -> World {
    World::new(EnemySpawner { timer: Timer::from_millis(2000, TimerMode::Repeating) })
}

fn no_keys() -> PlayerInput {
    PlayerInput { up: false, down: false, left: false, right: false, fire: false }
}

#[test]
fn keys_set_acceleration_negative_direction_wins_conflicts() {
    let mut w = empty_world();
    let id = player::setup(&mut w);

    let mut input = no_keys();
    input.right = true;
    input.up = true;
    apply_player_control(&mut w, input, 10);
    let a = w.ents[id].acceleration.unwrap().vector;
    assert_eq!(a, Vec2 { x: 1300, y: 1300 });

    let mut conflict = no_keys();
    conflict.left = true;
    conflict.right = true;
    conflict.up = true;
    conflict.down = true;
    apply_player_control(&mut w, conflict, 10);
    let a = w.ents[id].acceleration.unwrap().vector;
    assert_eq!(a, Vec2 { x: -1300, y: -1300 });

    apply_player_control(&mut w, no_keys(), 10);
    let a = w.ents[id].acceleration.unwrap().vector;
    assert_eq!(a, Vec2 { x: 0, y: 0 });
}

#[test]
fn fire_is_ignored_before_the_cooldown_and_honored_after() {
    let mut w = empty_world();
    player::setup(&mut w);
    let mut fire = no_keys();
    fire.fire = true;

    // Cooldown is 100 ms and starts un-elapsed: t < C is ignored.
    apply_player_control(&mut w, fire, 50);
    assert_eq!(w.spawns.len(), 0);
    // Cumulative 100 ms >= C: the fire succeeds and resets the cooldown.
    apply_player_control(&mut w, fire, 50);
    assert_eq!(w.spawns.len(), 1);
    // Right after a successful fire the cooldown gates again.
    apply_player_control(&mut w, fire, 99);
    assert_eq!(w.spawns.len(), 1);
    apply_player_control(&mut w, fire, 1);
    assert_eq!(w.spawns.len(), 2);
}

#[test]
fn fired_projectile_matches_the_firing_entity() {
    // Player at (0,0) with velocity (0,0), cooldown exhausted, fires: the
    // projectile spawns at (0,0) with forward speed 750 plus jitter in
    // [-100,100] horizontally, [-125,125] vertically, a +-5 collider and a
    // 0.4 s one-shot self-destruct.
    let mut w = empty_world();
    player::setup(&mut w);
    let mut fire = no_keys();
    fire.fire = true;
    apply_player_control(&mut w, fire, 100);
    assert_eq!(w.spawns.len(), 1);
    let bullet = match &w.spawns[0] {
        SpawnRequest::Bullet(b) => *b,
        _ => panic!("expected a projectile spawn"),
    };
    assert_eq!(bullet.position.vector, Vec2 { x: 0, y: 0 });
    assert!(650 <= bullet.velocity.vector.x && bullet.velocity.vector.x <= 850);
    assert!(-125 <= bullet.velocity.vector.y && bullet.velocity.vector.y <= 125);
    assert_eq!(bullet.collider.aabb.min, Vec2 { x: -5, y: -5 });
    assert_eq!(bullet.collider.aabb.max, Vec2 { x: 5, y: 5 });
    assert_eq!(bullet.self_destruct.timer.duration_ms, 400);
    assert_eq!(bullet.self_destruct.timer.elapsed_ms, 0);
    assert_eq!(bullet.self_destruct.timer.mode, TimerMode::Once);
    assert_eq!(bullet.sprite_size, Vec2 { x: 10, y: 10 });

    w.flush();
    let spawned = &w.ents[w.ents.len() - 1];
    assert!(spawned.alive);
    assert!(spawned.player_attack);
    assert_eq!(spawned.position.unwrap().vector, Vec2 { x: 0, y: 0 });
}

#[test]
fn camera_retarget_moves_the_role_atomically() {
    let mut w = empty_world();
    let mut x = EntitySlot::empty();
    x.camera_target = true;
    let mut y = EntitySlot::empty();
    y.next_camera_target = true;
    let x_id = w.spawn(x);
    let y_id = w.spawn(y);

    update_camera_target(&mut w);

    assert!(!w.ents[x_id].camera_target);
    assert!(w.ents[y_id].camera_target);
    for e in &w.ents {
        assert!(!e.next_camera_target);
    }
}

#[test]
fn camera_retarget_without_a_request_is_a_no_op() {
    let mut w = empty_world();
    let mut x = EntitySlot::empty();
    x.camera_target = true;
    let x_id = w.spawn(x);
    update_camera_target(&mut w);
    assert!(w.ents[x_id].camera_target);
}

#[test]
fn camera_smooths_halfway_at_rate_times_dt_of_half() {
    let mut w = empty_world();
    let cam_id = camera::setup(&mut w);
    let mut target = EntitySlot::empty();
    target.camera_target = true;
    target.transform = Some(Transform {
        translation: Vec3 { x: 1000, y: 500, z: 3 },
        scale_num: 1,
        scale_den: 1,
    });
    w.spawn(target);

    // rate 2 / s and dt = 250 ms: the camera covers half the distance;
    // its depth is never modified.
    update_camera_position(&mut w, 250);
    let t = w.ents[cam_id].transform.unwrap();
    assert_eq!(t.translation.x, 500);
    assert_eq!(t.translation.y, 250);
    assert_eq!(t.translation.z, 0);
}

#[test]
fn resize_rescales_to_preserve_the_logical_width() {
    let mut w = empty_world();
    let cam_id = camera::setup(&mut w);
    on_window_resized(&mut w, 960);
    let t = w.ents[cam_id].transform.unwrap();
    assert_eq!(t.scale_num, 1920);
    assert_eq!(t.scale_den, 960);
    assert_eq!(t.translation, Vec3 { x: 0, y: 0, z: 0 });
}

#[test]
fn mouse_pick_requests_the_first_untargeted_positioned_entity() {
    let mut w = empty_world();
    let player_id = player::setup(&mut w);
    camera::setup(&mut w);
    let mut enemy = EntitySlot::empty();
    enemy.position = Some(Position { vector: Vec2 { x: 50, y: 50 } });
    let enemy_id = w.spawn(enemy);

    // The player holds CameraTarget, so the enemy is the first candidate.
    handle_left_mouse_button(&mut w);
    assert!(w.ents[enemy_id].next_camera_target);

    // The next camera pass moves the role from the player to the enemy.
    update_camera_target(&mut w);
    assert!(!w.ents[player_id].camera_target);
    assert!(w.ents[enemy_id].camera_target);
    assert!(!w.ents[enemy_id].next_camera_target);
}
