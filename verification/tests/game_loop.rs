use shooter_core::game::frame_update;
use shooter_core::game::startup;
use shooter_core::math::Vec2;
use shooter_core::player::PlayerInput;
use shooter_core::timer::TimerMode;

#[test]
fn startup_builds_player_camera_and_first_enemy() {
    let w = startup();
    assert_eq!(w.ents.len(), 3);

    let player = &w.ents[0];
    assert!(player.alive);
    assert_eq!(player.position.unwrap().vector, Vec2 { x: 0, y: 0 });
    assert_eq!(player.velocity.unwrap().vector, Vec2 { x: 0, y: 0 });
    assert_eq!(player.player_controlled.unwrap().speed, 1300);
    assert_eq!(player.destructable.unwrap().health, 100);
    assert_eq!(player.drag.unwrap().value, 3);
    assert_eq!(player.fire_rate.unwrap().timer.duration_ms, 100);
    assert!(player.camera_target);

    let camera = &w.ents[1];
    assert!(camera.camera2d);
    let t = camera.transform.unwrap();
    assert_eq!(t.scale_num, 1);
    assert_eq!(t.scale_den, 1);

    let enemy = &w.ents[2];
    assert!(enemy.enemy);
    let p = enemy.position.unwrap().vector;
    assert!(-200 <= p.x && p.x <= 200);
    assert!(-200 <= p.y && p.y <= 200);
    let v = enemy.velocity.unwrap().vector;
    assert!(-20 <= v.x && v.x <= 20);
    assert!(-20 <= v.y && v.y <= 20);

    // The spawner timer repeats every 2.0 s and starts un-elapsed.
    assert_eq!(w.spawner.timer.duration_ms, 2000);
    assert_eq!(w.spawner.timer.elapsed_ms, 0);
    assert_eq!(w.spawner.timer.mode, TimerMode::Repeating);
    assert!(w.despawns.is_empty());
    assert!(w.spawns.is_empty());
}

#[test]
fn one_frame_with_an_exhausted_cooldown_spawns_a_flushed_projectile() {
    let mut w = startup();
    let fire = PlayerInput { up: false, down: false, left: false, right: false, fire: true };
    frame_update(&mut w, fire, 100);

    // The projectile was queued during the frame and realized at its flush.
    assert_eq!(w.ents.len(), 4);
    let bullet = &w.ents[3];
    assert!(bullet.alive);
    assert!(bullet.player_attack);
    assert_eq!(bullet.position.unwrap().vector, Vec2 { x: 0, y: 0 });
    assert!(w.despawns.is_empty());
    assert!(w.spawns.is_empty());
    assert_eq!(w.spawner.timer.elapsed_ms, 100);

    // Its 0.4 s self-destruct later removes it.
    let calm = PlayerInput { up: false, down: false, left: false, right: false, fire: false };
    frame_update(&mut w, calm, 400);
    assert!(!w.ents[3].alive);
}
