use shmup_core::pool::{BulletPool, EnemyPool};
use shmup_core::world::World;

#[test]
fn acquire_returns_handles_in_creation_order() {
    let mut world = World::new();
    let mut pool = BulletPool::init(&mut world, 3);
    assert_eq!(pool.spawn(), Some(0));
    assert_eq!(pool.spawn(), Some(1));
    assert_eq!(pool.spawn(), Some(2));
    assert_eq!(pool.spawn(), None);
}

#[test]
fn fifo_reuse_oldest_recycled_comes_back_first() {
    let mut world = World::new();
    let mut pool = BulletPool::init(&mut world, 3);
    let h1 = pool.spawn().unwrap();
    let h2 = pool.spawn().unwrap();
    let h3 = pool.spawn().unwrap();
    assert_eq!(pool.spawn(), None);
    pool.recycle(h1);
    pool.recycle(h2);
    pool.recycle(h3);
    assert_eq!(pool.spawn(), Some(h1));
    assert_eq!(pool.spawn(), Some(h2));
    assert_eq!(pool.spawn(), Some(h3));
}

#[test]
fn exhausted_pool_reports_nothing_and_stays_usable() {
    let mut world = World::new();
    let mut pool = EnemyPool::init(&mut world, 1);
    let h = pool.spawn().unwrap();
    assert_eq!(pool.spawn(), None);
    assert_eq!(pool.spawn(), None);
    pool.recycle(h);
    assert_eq!(pool.spawn(), Some(h));
}

#[test]
fn handles_are_conserved_across_acquire_and_recycle() {
    let mut world = World::new();
    let mut pool = BulletPool::init(&mut world, 4);
    let mut out = Vec::new();
    while let Some(h) = pool.spawn() {
        out.push(h);
    }
    assert_eq!(out.len(), 4);
    for h in out {
        pool.recycle(h);
    }
    let mut again = Vec::new();
    while let Some(h) = pool.spawn() {
        again.push(h);
    }
    assert_eq!(again.len(), 4);
}

#[test]
fn init_offsets_handles_past_existing_records() {
    let mut world = World::new();
    let mut enemies = EnemyPool::init(&mut world, 2);
    let mut bullets = BulletPool::init(&mut world, 2);
    assert_eq!(enemies.spawn(), Some(0));
    assert_eq!(enemies.spawn(), Some(1));
    assert_eq!(bullets.spawn(), Some(2));
    assert_eq!(bullets.spawn(), Some(3));
    assert_eq!(world.objects.len(), 4);
}
