use shmup_core::combat::{moving, move_player, player_shoot, recycle_bullet_when_it_is_out_of_boundary,
    ShotOutcome};
use shmup_core::game::Game;
use shmup_core::pool::BulletPool;
use shmup_core::world::{World, Faction, Appearance, Vec2i, BOUNDARY_TOP, BOUNDARY_BOTTOM,
    BOUNDARY_LEFT, BOUNDARY_RIGHT, PLAYER_SPAWN_Y, PLAYER_FIRE_OFFSET, PLAYER_BULLET_SPEED,
    PLAYER_MOVE_SPEED};

fn world_with_one_active_bullet(x: i64, y: i64, faction: Faction) -> (World, BulletPool) {
    let mut world = World::new();
    let mut bullets = BulletPool::init(&mut world, 1);
    let h = bullets.spawn().unwrap();
    world.objects[h].visible = true;
    world.objects[h].pos = Vec2i::new(x, y);
    world.objects[h].movable.direction = Vec2i::new(0, 1);
    world.objects[h].faction = faction;
    (world, bullets)
}

fn assert_reclaimed(world: &World, h: usize) {
    assert!(!world.objects[h].visible);
    assert_eq!(world.objects[h].faction, Faction::Neutral);
    assert_eq!(world.objects[h].movable.direction, Vec2i::new(0, 0));
}

#[test]
fn bullet_beyond_top_boundary_is_reclaimed() {
    let (mut world, mut bullets) = world_with_one_active_bullet(0, BOUNDARY_TOP, Faction::Player);
    recycle_bullet_when_it_is_out_of_boundary(&mut world, &mut bullets);
    assert_reclaimed(&world, 0);
    assert_eq!(bullets.spawn(), Some(0));
}

#[test]
fn bullet_beyond_bottom_boundary_is_reclaimed() {
    let (mut world, mut bullets) = world_with_one_active_bullet(0, BOUNDARY_BOTTOM, Faction::Enemy);
    recycle_bullet_when_it_is_out_of_boundary(&mut world, &mut bullets);
    assert_reclaimed(&world, 0);
}

#[test]
fn bullet_beyond_left_boundary_is_reclaimed() {
    let (mut world, mut bullets) = world_with_one_active_bullet(BOUNDARY_LEFT, 0, Faction::Enemy);
    recycle_bullet_when_it_is_out_of_boundary(&mut world, &mut bullets);
    assert_reclaimed(&world, 0);
}

#[test]
fn bullet_beyond_right_boundary_is_reclaimed() {
    let (mut world, mut bullets) = world_with_one_active_bullet(BOUNDARY_RIGHT, 0, Faction::Player);
    recycle_bullet_when_it_is_out_of_boundary(&mut world, &mut bullets);
    assert_reclaimed(&world, 0);
}

#[test]
fn bullet_strictly_inside_all_boundaries_is_never_reclaimed() {
    let (mut world, mut bullets) = world_with_one_active_bullet(
        BOUNDARY_RIGHT - 1,
        BOUNDARY_TOP - 1,
        Faction::Player,
    );
    recycle_bullet_when_it_is_out_of_boundary(&mut world, &mut bullets);
    assert!(world.objects[0].visible);
    assert_eq!(world.objects[0].faction, Faction::Player);
    assert_eq!(world.objects[0].movable.direction, Vec2i::new(0, 1));
    assert_eq!(bullets.spawn(), None);
}

#[test]
fn player_shot_scenario_exact_cooldown_boundary() {
    // Player weapon cooldown 300 ms, exactly 300 ms since the last shot,
    // fire held, bullet pool non-empty.
    let mut g = Game::start_up(0, 1);
    let first = player_shoot(&mut g.world, &mut g.bullet_pool, false, 300);
    assert_eq!(first, ShotOutcome::Cooling);
    let second = player_shoot(&mut g.world, &mut g.bullet_pool, true, 0);
    assert_eq!(second, ShotOutcome::Fired);
    let bullet = &g.world.objects[1];
    assert!(bullet.visible);
    assert_eq!(bullet.faction, Faction::Player);
    assert_eq!(bullet.appearance, Appearance::PlayerBullet);
    assert_eq!(bullet.pos, Vec2i::new(0, PLAYER_SPAWN_Y + PLAYER_FIRE_OFFSET));
    assert_eq!(bullet.movable.direction, Vec2i::new(0, 1));
    assert_eq!(bullet.movable.speed, PLAYER_BULLET_SPEED);
    let shooter = g.world.objects[0].shooter.unwrap();
    assert_eq!(shooter.weapon_cool_down.elapsed_ms, 0);
}

#[test]
fn firing_attempt_on_exhausted_pool_resets_cooldown_and_skips_shot() {
    let mut g = Game::start_up(0, 0);
    let first = player_shoot(&mut g.world, &mut g.bullet_pool, false, 300);
    assert_eq!(first, ShotOutcome::Cooling);
    let second = player_shoot(&mut g.world, &mut g.bullet_pool, true, 0);
    assert_eq!(second, ShotOutcome::Exhausted);
    let shooter = g.world.objects[0].shooter.unwrap();
    assert_eq!(shooter.weapon_cool_down.elapsed_ms, 0);
}

#[test]
fn idle_trigger_leaves_finished_cooldown_alone() {
    let mut g = Game::start_up(0, 1);
    player_shoot(&mut g.world, &mut g.bullet_pool, false, 300);
    let r = player_shoot(&mut g.world, &mut g.bullet_pool, false, 50);
    assert_eq!(r, ShotOutcome::Idle);
    let shooter = g.world.objects[0].shooter.unwrap();
    assert_eq!(shooter.weapon_cool_down.elapsed_ms, 300);
    assert!(!g.world.objects[1].visible);
}

#[test]
fn held_keys_set_player_direction_and_movement_applies_speed() {
    let mut g = Game::start_up(0, 0);
    move_player(&mut g.world, true, false, false, true);
    assert_eq!(g.world.objects[0].movable.direction, Vec2i::new(1, 1));
    moving(&mut g.world);
    let speed = PLAYER_MOVE_SPEED as i64;
    assert_eq!(g.world.objects[0].pos, Vec2i::new(speed, PLAYER_SPAWN_Y + speed));
}

#[test]
fn opposite_keys_cancel_and_zero_direction_means_stationary() {
    let mut g = Game::start_up(0, 0);
    move_player(&mut g.world, true, true, true, true);
    assert_eq!(g.world.objects[0].movable.direction, Vec2i::new(0, 0));
    moving(&mut g.world);
    assert_eq!(g.world.objects[0].pos, Vec2i::new(0, PLAYER_SPAWN_Y));
}

#[test]
fn world_without_player_shooter_reports_it_and_changes_nothing() {
    let mut world = World::new();
    let mut bullets = BulletPool::init(&mut world, 1);
    let r = player_shoot(&mut world, &mut bullets, true, 100);
    assert_eq!(r, ShotOutcome::NoShooter);
    assert!(!world.objects[0].visible);
    assert_eq!(bullets.spawn(), Some(0));
}
