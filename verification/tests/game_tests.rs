use shmup_core::combat::SpawnOutcome;
use shmup_core::game::{Game, InputState};
use shmup_core::world::{Faction, Kind, Appearance, ENEMY_SPAWN_X_MIN, ENEMY_SPAWN_X_MAX,
    ENEMY_SPAWN_Y, ENEMY_MOVE_SPEED};

fn idle() -> InputState {
    InputState { up: false, down: false, left: false, right: false, fire: false }
}

fn firing() -> InputState {
    InputState { up: false, down: false, left: false, right: false, fire: true }
}

fn active_enemies(g: &Game) -> usize {
    g.world.objects.iter().filter(|o| o.kind == Kind::Unit && o.faction == Faction::Enemy
        && o.visible).count()
}

fn hidden_enemies(g: &Game) -> usize {
    g.world.objects.iter().filter(|o| o.kind == Kind::Unit && o.faction == Faction::Enemy
        && !o.visible).count()
}

#[test]
fn enemy_wave_exhaustion_scenario() {
    // Enemy pool capacity 2, spawn timer 3 s; the third expiry finds the
    // pool empty, reports it, and leaves exactly 2 enemies active.
    let mut g = Game::start_up(2, 0);
    let mut outcomes = Vec::new();
    for _ in 0..3 {
        let r = g.tick(idle(), 3000);
        assert_eq!(r.spawn, SpawnOutcome::Waiting);
        let r = g.tick(idle(), 0);
        outcomes.push(r.spawn);
    }
    assert_eq!(outcomes, vec![SpawnOutcome::Spawned, SpawnOutcome::Spawned,
        SpawnOutcome::Exhausted]);
    assert_eq!(active_enemies(&g), 2);
    assert_eq!(hidden_enemies(&g), 0);
}

#[test]
fn spawned_enemy_lands_in_safe_band_heading_down() {
    let mut g = Game::start_up(1, 0);
    g.tick(idle(), 3000);
    let r = g.tick(idle(), 0);
    assert_eq!(r.spawn, SpawnOutcome::Spawned);
    let enemy = &g.world.objects[1];
    assert!(enemy.visible);
    assert!(ENEMY_SPAWN_X_MIN <= enemy.pos.x && enemy.pos.x < ENEMY_SPAWN_X_MAX);
    // The enemy already moved once this tick: one step straight down.
    assert_eq!(enemy.pos.y, ENEMY_SPAWN_Y - ENEMY_MOVE_SPEED as i64);
    assert_eq!(enemy.movable.direction.x, 0);
    assert_eq!(enemy.movable.direction.y, -1);
}

#[test]
fn visible_enemy_autofires_once_cooldown_expires() {
    let mut g = Game::start_up(1, 1);
    // Wave timer runs up; the pooled enemy's cooldown (1.5 s) also runs,
    // even while hidden, and is finished by the time it spawns.
    g.tick(idle(), 3000);
    let r = g.tick(idle(), 0);
    assert_eq!(r.spawn, SpawnOutcome::Spawned);
    let bullet = &g.world.objects[2];
    assert!(bullet.visible);
    assert_eq!(bullet.faction, Faction::Enemy);
    assert_eq!(bullet.appearance, Appearance::EnemyBullet);
    assert_eq!(bullet.movable.direction.y, -1);
    let enemy = &g.world.objects[1];
    assert_eq!(bullet.pos.x, enemy.pos.x);
    // Muzzle offset 485 below the enemy spawn height, then one bullet step
    // of 20 downward in the same tick.
    assert_eq!(bullet.pos.y, ENEMY_SPAWN_Y - 485 - 20);
    // The enemy's cooldown was reset by the shot.
    assert_eq!(g.world.objects[1].shooter.unwrap().weapon_cool_down.elapsed_ms, 0);
}

#[test]
fn reclaim_and_respawn_scenario() {
    // A player bullet crosses the top boundary, is reclaimed neutral and
    // halted, and the very next acquire returns the same handle.
    let mut g = Game::start_up(0, 1);
    g.tick(idle(), 300);
    let r = g.tick(firing(), 0);
    assert_eq!(r.shot, shmup_core::combat::ShotOutcome::Fired);
    assert!(g.world.objects[1].visible);
    let mut reclaimed = false;
    for _ in 0..500 {
        g.tick(idle(), 0);
        if !g.world.objects[1].visible {
            reclaimed = true;
            break;
        }
    }
    assert!(reclaimed);
    assert_eq!(g.world.objects[1].faction, Faction::Neutral);
    assert_eq!(g.world.objects[1].movable.direction.x, 0);
    assert_eq!(g.world.objects[1].movable.direction.y, 0);
    // Refire: the pool hands the same (and only) handle back out.
    g.tick(idle(), 300);
    let r = g.tick(firing(), 0);
    assert_eq!(r.shot, shmup_core::combat::ShotOutcome::Fired);
    assert!(g.world.objects[1].visible);
    assert_eq!(g.world.objects[1].faction, Faction::Player);
}

#[test]
fn tick_conserves_arena_size() {
    let mut g = Game::start_up(3, 4);
    let n = g.world.objects.len();
    for _ in 0..20 {
        g.tick(firing(), 500);
        assert_eq!(g.world.objects.len(), n);
    }
}
