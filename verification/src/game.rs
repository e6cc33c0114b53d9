use vstd::prelude::*;
use crate::combat::{move_player, spawn_enemy, player_shoot, shooting, moving,
    recycle_bullet_when_it_is_out_of_boundary, SpawnOutcome, ShotOutcome, enemies_linked,
    bullets_linked, pooled_enemy_ok, pooled_bullet_ok, lent_bullet_ok, autofire_shape,
    should_reclaim, moved_obj, enemy_placed, input_applied, moved_all, shot_applied, shot_outcome,
    spawn_stage_ok, autofire_upto, reclaim_upto};
use crate::pool::{Pool, EnemyPool, BulletPool};
use crate::timer::CooldownTimer;
use crate::world::{World, GameObject, Kind, make_player, player_obj, pooled_enemy_obj,
    pooled_bullet_obj, ENEMY_WAVE_COOL_DOWN_MS};

verus! {

/// The direction and fire keys currently held, polled once per tick.
#[derive(Clone, Copy, Debug, PartialEq, Eq, Structural)]
pub struct InputState {
    pub up: bool,
    pub down: bool,
    pub left: bool,
    pub right: bool,
    pub fire: bool,
}

/// What one tick reported of the two acquisition points; exhaustion is
/// non-fatal and left to the caller to log.
#[derive(Clone, Copy, Debug, PartialEq, Eq, Structural)]
pub struct TickReport {
    pub spawn: SpawnOutcome,
    pub shot: ShotOutcome,
}

/// The whole simulation: the arena, the two pools that own its reusable
/// handles, and the enemy-wave timer.
pub struct Game {
    pub world: World,
    pub enemy_pool: EnemyPool,
    pub bullet_pool: BulletPool,
    pub wave_timer: CooldownTimer,
}

/// Updating records while keeping each record's shape (see
/// `autofire_shape`) cannot disturb the link between the arena and the
/// enemy pool.
proof fn enemies_linked_after_shape(objs: Seq<GameObject>, objs2: Seq<GameObject>, p: Pool)
    requires
        enemies_linked(objs, p),
        objs2.len() == objs.len(),
        forall|j: int| 0 <= j < objs.len() ==> autofire_shape(#[trigger] objs[j], objs2[j]),
    ensures
        enemies_linked(objs2, p),
{
    assert forall|k: int| 0 <= k < p.inactive().len() implies pooled_enemy_ok(
        objs2,
        #[trigger] p.inactive()[k],
    ) by {
        let h = p.inactive()[k];
        assert(pooled_enemy_ok(objs, h));
        assert(autofire_shape(objs[h as int], objs2[h as int]));
    }
}

impl Game {
    /// Everything the tick pipeline preserves: well-formed records, both
    /// pools internally consistent, and each pool's handles linked to the
    /// arena records they refer to.
    pub open spec fn wf(self) -> bool {
        &&& self.world.objects@.len() <= usize::MAX
        &&& self.world.wf()
        &&& self.enemy_pool.0.wf()
        &&& self.bullet_pool.0.wf()
        &&& enemies_linked(self.world.objects@, self.enemy_pool.0)
        &&& bullets_linked(self.world.objects@, self.bullet_pool.0)
    }

    /// Startup: the player's unit at handle 0, then `enemy_capacity`
    /// pre-created enemies, then `bullet_capacity` pre-created bullets, all
    /// pooled and hidden; the wave timer starts fresh.
    pub fn start_up(enemy_capacity: usize, bullet_capacity: usize) -> (g: Game)
        requires
            1 + enemy_capacity + bullet_capacity <= usize::MAX,
        ensures
            g.wf(),
            g.world.objects@.len() == 1 + enemy_capacity + bullet_capacity,
            g.world.objects@[0] == player_obj(),
            g.enemy_pool.0.inactive().len() == enemy_capacity,
            g.enemy_pool.0.lent() =~= Set::<usize>::empty(),
            forall|k: int| 0 <= k < enemy_capacity ==> #[trigger] g.enemy_pool.0.inactive()[k]
                == 1 + k,
            forall|k: int| 0 <= k < enemy_capacity ==> #[trigger] g.world.objects@[1 + k]
                == pooled_enemy_obj(),
            g.bullet_pool.0.inactive().len() == bullet_capacity,
            g.bullet_pool.0.lent() =~= Set::<usize>::empty(),
            forall|k: int| 0 <= k < bullet_capacity ==> #[trigger] g.bullet_pool.0.inactive()[k]
                == 1 + enemy_capacity + k,
            forall|k: int| 0 <= k < bullet_capacity ==> #[trigger] g.world.objects@[1
                + enemy_capacity + k] == pooled_bullet_obj(),
            g.wave_timer.duration_ms == ENEMY_WAVE_COOL_DOWN_MS,
            g.wave_timer.elapsed_ms == 0,
    {
        let mut world = World::new();
        world.objects.push(make_player());
        let ghost w1 = world.objects@;
        let enemy_pool = EnemyPool::init(&mut world, enemy_capacity);
        let ghost w2 = world.objects@;
        let bullet_pool = BulletPool::init(&mut world, bullet_capacity);
        let wave_timer = CooldownTimer::new(ENEMY_WAVE_COOL_DOWN_MS);
        let g = Game { world, enemy_pool, bullet_pool, wave_timer };
        proof {
            let e = enemy_capacity as int;
            let bsz = bullet_capacity as int;
            let objs = g.world.objects@;
            assert(w2[0] == w1[0]);
            assert(objs[0] == w2[0]);
            assert(objs[0] == player_obj());
            assert forall|k: int| 0 <= k < e implies #[trigger] objs[1 + k]
                == pooled_enemy_obj() by {
                assert(w2[1 + k] == pooled_enemy_obj());
                assert(objs[1 + k] == w2[1 + k]);
            }
            assert forall|k: int| 0 <= k < bsz implies #[trigger] objs[1 + e + k]
                == pooled_bullet_obj() by {
                assert(objs[w2.len() + k] == pooled_bullet_obj());
            }
            assert forall|i: int| 0 <= i < objs.len() implies (#[trigger] objs[i]).wf() by {
                if i == 0 {
                } else if i < 1 + e {
                    assert(objs[1 + (i - 1)] == pooled_enemy_obj());
                } else {
                    assert(objs[1 + e + (i - 1 - e)] == pooled_bullet_obj());
                }
            }
            assert forall|k: int| 0 <= k < g.enemy_pool.0.inactive().len() implies
                pooled_enemy_ok(objs, #[trigger] g.enemy_pool.0.inactive()[k]) by {
                assert(g.enemy_pool.0.inactive()[k] == 1 + k);
                assert(objs[1 + k] == pooled_enemy_obj());
            }
            assert forall|k: int| 0 <= k < g.bullet_pool.0.inactive().len() implies
                pooled_bullet_ok(objs, #[trigger] g.bullet_pool.0.inactive()[k]) by {
                assert(g.bullet_pool.0.inactive()[k] == w2.len() + k);
                assert(objs[1 + e + k] == pooled_bullet_obj());
            }
            assert forall|j: int|
                0 <= j < objs.len() && (#[trigger] objs[j]).kind == Kind::Bullet
                    && objs[j].visible implies g.bullet_pool.0.lent().contains(j as usize) by {
                if j == 0 {
                } else if j < 1 + e {
                    assert(objs[1 + (j - 1)] == pooled_enemy_obj());
                } else {
                    assert(objs[1 + e + (j - 1 - e)] == pooled_bullet_obj());
                }
            }
        }
        g
    }

    /// One simulation tick, in this fixed order: input handling, enemy
    /// spawning, player firing, enemy autofire, movement, boundary
    /// reclamation. A bullet fired this tick therefore moves once before it
    /// can be reclaimed. Handles are conserved: neither pool's capacity
    /// changes, and the whole invariant `wf` is preserved.
    pub fn tick(&mut self, input: InputState, delta_ms: u64) -> (r: TickReport)
        requires
            old(self).wf(),
        ensures
            final(self).wf(),
            final(self).world.objects@.len() == old(self).world.objects@.len(),
            final(self).enemy_pool.0.capacity() == old(self).enemy_pool.0.capacity(),
            final(self).bullet_pool.0.capacity() == old(self).bullet_pool.0.capacity(),
            final(self).wave_timer == (if old(self).wave_timer.finished_spec() {
                old(self).wave_timer.reset_spec()
            } else {
                old(self).wave_timer.ticked(delta_ms)
            }),
            (r.spawn == SpawnOutcome::Waiting <==> !old(self).wave_timer.finished_spec()),
            (r.spawn == SpawnOutcome::Exhausted <==> old(self).wave_timer.finished_spec() && old(
                self,
            ).enemy_pool.0.inactive().len() == 0),
            (r.spawn == SpawnOutcome::Spawned <==> old(self).wave_timer.finished_spec() && old(
                self,
            ).enemy_pool.0.inactive().len() > 0),
            final(self).enemy_pool.0.inactive() == (if r.spawn == SpawnOutcome::Spawned {
                old(self).enemy_pool.0.inactive().drop_first()
            } else {
                old(self).enemy_pool.0.inactive()
            }),
            ({
                let a0 = old(self).world.objects@;
                let eq0 = old(self).enemy_pool.0.inactive();
                let bq0 = old(self).bullet_pool.0.inactive();
                let bl0 = old(self).bullet_pool.0.lent();
                let a1 = input_applied(a0, input.up, input.down, input.left, input.right);
                exists|mid: Seq<GameObject>|
                    #![trigger shot_applied(mid, bq0, bl0, input.fire, delta_ms)]
                    (if r.spawn == SpawnOutcome::Spawned {
                        spawn_stage_ok(a1, eq0[0], mid)
                    } else {
                        mid == a1
                    }) && ({
                        let s3 = shot_applied(mid, bq0, bl0, input.fire, delta_ms);
                        let s4 = autofire_upto(s3.0, s3.1, s3.2, delta_ms, s3.0.len() as int);
                        let a5 = moved_all(s4.0);
                        let s6 = reclaim_upto(a5, s4.1, s4.2, a5.len() as int);
                        &&& r.shot == shot_outcome(mid, bq0, input.fire)
                        &&& final(self).world.objects@ == s6.0
                        &&& final(self).bullet_pool.0.inactive() == s6.1
                        &&& final(self).bullet_pool.0.lent() == s6.2
                    })
            }),
    {
        let ghost a0 = self.world.objects@;
        move_player(&mut self.world, input.up, input.down, input.left, input.right);
        proof {
            let a = a0;
            let b = self.world.objects@;
            assert forall|k: int| 0 <= k < self.enemy_pool.0.inactive().len() implies
                pooled_enemy_ok(b, #[trigger] self.enemy_pool.0.inactive()[k]) by {
                let h = self.enemy_pool.0.inactive()[k];
                assert(pooled_enemy_ok(a, h));
            }
            assert forall|k: int| 0 <= k < self.bullet_pool.0.inactive().len() implies
                pooled_bullet_ok(b, #[trigger] self.bullet_pool.0.inactive()[k]) by {
                let h = self.bullet_pool.0.inactive()[k];
                assert(pooled_bullet_ok(a, h));
            }
            assert forall|h: usize| #[trigger] self.bullet_pool.0.lent().contains(h) implies
                lent_bullet_ok(b, h) by {
                assert(lent_bullet_ok(a, h));
            }
            assert forall|j: int|
                0 <= j < b.len() && (#[trigger] b[j]).kind == Kind::Bullet && b[j].visible
                    implies self.bullet_pool.0.lent().contains(j as usize) by {
                assert(a[j].kind == Kind::Bullet && a[j].visible);
            }
        }
        let ghost a1 = self.world.objects@;
        let ghost eq1 = self.enemy_pool.0.inactive();
        let spawn = spawn_enemy(&mut self.world, &mut self.enemy_pool, &mut self.wave_timer,
            delta_ms);
        proof {
            let a = a1;
            let b = self.world.objects@;
            if b != a {
                let h = eq1[0] as int;
                let x = choose|x: i64|
                    crate::world::ENEMY_SPAWN_X_MIN <= x < crate::world::ENEMY_SPAWN_X_MAX && b
                        == a.update(h, #[trigger] enemy_placed(a[h], x));
                assert(b == a.update(h, enemy_placed(a[h], x)));
                assert(pooled_enemy_ok(a, eq1[0]));
            }
            assert forall|k: int| 0 <= k < self.bullet_pool.0.inactive().len() implies
                pooled_bullet_ok(b, #[trigger] self.bullet_pool.0.inactive()[k]) by {
                assert(pooled_bullet_ok(a, self.bullet_pool.0.inactive()[k]));
            }
            assert forall|h: usize| #[trigger] self.bullet_pool.0.lent().contains(h) implies
                lent_bullet_ok(b, h) by {
                assert(lent_bullet_ok(a, h));
            }
            assert forall|j: int|
                0 <= j < b.len() && (#[trigger] b[j]).kind == Kind::Bullet && b[j].visible
                    implies self.bullet_pool.0.lent().contains(j as usize) by {
                assert(a[j].kind == Kind::Bullet && a[j].visible);
            }
        }
        let ghost a2 = self.world.objects@;
        let shot = player_shoot(&mut self.world, &mut self.bullet_pool, input.fire, delta_ms);
        proof {
            enemies_linked_after_shape(a2, self.world.objects@, self.enemy_pool.0);
        }
        let ghost a3 = self.world.objects@;
        shooting(&mut self.world, &mut self.bullet_pool, delta_ms);
        proof {
            enemies_linked_after_shape(a3, self.world.objects@, self.enemy_pool.0);
        }
        let ghost a4 = self.world.objects@;
        moving(&mut self.world);
        proof {
            let a = a4;
            let b = self.world.objects@;
            assert forall|j: int| 0 <= j < a.len() implies autofire_shape(
                #[trigger] a[j],
                b[j],
            ) by {
                assert(b[j] == moved_obj(a[j]));
            }
            enemies_linked_after_shape(a, b, self.enemy_pool.0);
            assert forall|k: int| 0 <= k < self.bullet_pool.0.inactive().len() implies
                pooled_bullet_ok(b, #[trigger] self.bullet_pool.0.inactive()[k]) by {
                assert(pooled_bullet_ok(a, self.bullet_pool.0.inactive()[k]));
            }
            assert forall|h: usize| #[trigger] self.bullet_pool.0.lent().contains(h) implies
                lent_bullet_ok(b, h) by {
                assert(lent_bullet_ok(a, h));
            }
            assert forall|j: int|
                0 <= j < b.len() && (#[trigger] b[j]).kind == Kind::Bullet && b[j].visible
                    implies self.bullet_pool.0.lent().contains(j as usize) by {
                assert(b[j] == moved_obj(a[j]));
                assert(a[j].kind == Kind::Bullet && a[j].visible);
            }
        }
        let ghost a5 = self.world.objects@;
        recycle_bullet_when_it_is_out_of_boundary(&mut self.world, &mut self.bullet_pool);
        proof {
            let a = a5;
            let b = self.world.objects@;
            assert forall|k: int| 0 <= k < self.enemy_pool.0.inactive().len() implies
                pooled_enemy_ok(b, #[trigger] self.enemy_pool.0.inactive()[k]) by {
                let h = self.enemy_pool.0.inactive()[k];
                assert(pooled_enemy_ok(a, h));
                assert(!should_reclaim(a[h as int]));
            }
        }
        let report = TickReport { spawn, shot };
        proof {
            let a0x = old(self).world.objects@;
            let eq0 = old(self).enemy_pool.0.inactive();
            let bq0 = old(self).bullet_pool.0.inactive();
            let bl0 = old(self).bullet_pool.0.lent();
            assert forall|i: int| 0 <= i < a0x.len() implies a1[i] == input_applied(
                a0x,
                input.up,
                input.down,
                input.left,
                input.right,
            )[i] by {}
            assert(a1 =~= input_applied(a0x, input.up, input.down, input.left, input.right));
            assert forall|i: int| 0 <= i < a4.len() implies a5[i] == moved_all(a4)[i] by {
                assert(a5[i] == moved_obj(a4[i]));
            }
            assert(a5 =~= moved_all(a4));
            if report.spawn == SpawnOutcome::Spawned {
                assert(spawn_stage_ok(a1, eq0[0], a2));
            } else {
                assert(a2 == a1);
            }
            let s3 = shot_applied(a2, bq0, bl0, input.fire, delta_ms);
            assert(a3 == s3.0);
            let s4 = autofire_upto(s3.0, s3.1, s3.2, delta_ms, s3.0.len() as int);
            assert(a4 == s4.0);
            let s6 = reclaim_upto(a5, s4.1, s4.2, a5.len() as int);
            assert(self.world.objects@ == s6.0);
            assert(self.bullet_pool.0.inactive() == s6.1);
            assert(self.bullet_pool.0.lent() == s6.2);
            assert(report.shot == shot_outcome(a2, bq0, input.fire));
        }
        report
    }
}

} // verus!
