use vstd::prelude::*;
use vstd::pervasive::VecAdditionalExecFns;
use crate::pool::{Pool, EnemyPool, BulletPool};
use crate::timer::CooldownTimer;
use crate::world::{World, GameObject, Vec2i, Movable, Shooter, Faction, Kind, Appearance,
    ENEMY_SPAWN_Y, ENEMY_SPAWN_X_MIN, ENEMY_SPAWN_X_MAX, PLAYER_FIRE_OFFSET, ENEMY_FIRE_OFFSET,
    PLAYER_BULLET_SPEED, ENEMY_BULLET_SPEED, BOUNDARY_TOP, BOUNDARY_BOTTOM, BOUNDARY_LEFT,
    BOUNDARY_RIGHT};

verus! {

/// An integer clipped into the representable range of `i64`.
pub open spec fn sat_i64(v: int) -> i64 {
    if v > i64::MAX {
        i64::MAX
    } else if v < i64::MIN {
        i64::MIN
    } else {
        v as i64
    }
}

/// Saturating translation of one coordinate by a signed step.
pub fn sat_add_coord(a: i64, b: i64) -> (r: i64)
    ensures
        r == sat_i64(a + b),
{
    if b >= 0 {
        if a > i64::MAX - b {
            i64::MAX
        } else {
            a + b
        }
    } else {
        if a < i64::MIN - b {
            i64::MIN
        } else {
            a + b
        }
    }
}

/// One signed step along an axis: a unit-or-zero direction component times
/// the scalar speed.
fn step_of(d: i64, speed: u32) -> (r: i64)
    requires
        -1 <= d <= 1,
    ensures
        r == d * speed,
{
    let r: i64 = if d > 0 {
        speed as i64
    } else if d < 0 {
        0i64 - (speed as i64)
    } else {
        0
    };
    proof {
        assert(r == d * speed) by (nonlinear_arith)
            requires
                -1 <= d <= 1,
                d > 0 ==> r == speed,
                d < 0 ==> r == -(speed as int),
                d == 0 ==> r == 0,
        {
        }
    }
    r
}

/// Where one tick of motion takes an entity: its position translated by
/// direction times speed, with nothing else scaled (units per tick, not per
/// second).
pub open spec fn moved_pos(o: GameObject) -> Vec2i {
    Vec2i {
        x: sat_i64(o.pos.x + o.movable.direction.x * o.movable.speed),
        y: sat_i64(o.pos.y + o.movable.direction.y * o.movable.speed),
    }
}

pub open spec fn moved_obj(o: GameObject) -> GameObject {
    GameObject {
        pos: moved_pos(o),
        visible: o.visible,
        appearance: o.appearance,
        faction: o.faction,
        kind: o.kind,
        movable: o.movable,
        shooter: o.shooter,
    }
}

/// Movement system: every entity advances by its direction times its speed,
/// once per tick. A zero direction means no motion regardless of speed; no
/// boundary clamping happens here.
pub fn moving(world: &mut World)
    requires
        old(world).wf(),
    ensures
        final(world).wf(),
        final(world).objects@.len() == old(world).objects@.len(),
        forall|i: int|
            0 <= i < old(world).objects@.len() ==> final(world).objects@[i] == moved_obj(
                #[trigger] old(world).objects@[i],
            ),
{
    let n = world.objects.len();
    let mut i: usize = 0;
    while i < n
        invariant
            n == world.objects@.len(),
            n == old(world).objects@.len(),
            i <= n,
            world.wf(),
            forall|j: int|
                0 <= j < i ==> world.objects@[j] == moved_obj(#[trigger] old(world).objects@[j]),
            forall|j: int| i <= j < n ==> world.objects@[j] == old(world).objects@[j],
        decreases n - i,
    {
        let o = world.objects[i];
        proof {
            assert(world.objects@[i as int].wf());
        }
        let sx = step_of(o.movable.direction.x, o.movable.speed);
        let sy = step_of(o.movable.direction.y, o.movable.speed);
        proof {
            assert(sx == o.movable.direction.x * o.movable.speed);
            assert(sy == o.movable.direction.y * o.movable.speed);
        }
        let mut o2 = o;
        o2.pos = Vec2i { x: sat_add_coord(o.pos.x, sx), y: sat_add_coord(o.pos.y, sy) };
        world.objects.set(i, o2);
        i = i + 1;
    }
}

/// One axis of the player's step direction: the held keys add one step each
/// way, so opposite keys cancel.
pub open spec fn axis_step(neg: bool, pos: bool) -> i64 {
    if pos && !neg {
        1
    } else if neg && !pos {
        -1i64
    } else {
        0
    }
}

fn axis_step_exec(neg: bool, pos: bool) -> (r: i64)
    ensures
        r == axis_step(neg, pos),
{
    if pos && !neg {
        1
    } else if neg && !pos {
        -1
    } else {
        0
    }
}

/// The step direction the four held direction keys describe.
pub open spec fn input_direction(up: bool, down: bool, left: bool, right: bool) -> Vec2i {
    Vec2i { x: axis_step(left, right), y: axis_step(down, up) }
}

pub open spec fn is_player_unit(o: GameObject) -> bool {
    o.faction == Faction::Player && o.kind == Kind::Unit
}

pub open spec fn with_direction(o: GameObject, d: Vec2i) -> GameObject {
    GameObject {
        pos: o.pos,
        visible: o.visible,
        appearance: o.appearance,
        faction: o.faction,
        kind: o.kind,
        movable: Movable { direction: d, speed: o.movable.speed },
        shooter: o.shooter,
    }
}

/// Input handling: every player unit's direction is replaced by the step
/// vector the held keys describe; nothing else changes.
pub fn move_player(world: &mut World, up: bool, down: bool, left: bool, right: bool)
    ensures
        final(world).objects@.len() == old(world).objects@.len(),
        forall|i: int|
            0 <= i < old(world).objects@.len() ==> final(world).objects@[i] == (
            if is_player_unit(#[trigger] old(world).objects@[i]) {
                with_direction(old(world).objects@[i], input_direction(up, down, left, right))
            } else {
                old(world).objects@[i]
            }),
        old(world).wf() ==> final(world).wf(),
{
    let n = world.objects.len();
    let mut i: usize = 0;
    while i < n
        invariant
            n == world.objects@.len(),
            n == old(world).objects@.len(),
            i <= n,
            forall|j: int|
                0 <= j < i ==> world.objects@[j] == (
                if is_player_unit(#[trigger] old(world).objects@[j]) {
                    with_direction(old(world).objects@[j], input_direction(up, down, left, right))
                } else {
                    old(world).objects@[j]
                }),
            forall|j: int| i <= j < n ==> world.objects@[j] == old(world).objects@[j],
        decreases n - i,
    {
        let o = world.objects[i];
        if o.faction == Faction::Player && o.kind == Kind::Unit {
            let mut o2 = o;
            o2.movable.direction = Vec2i {
                x: axis_step_exec(left, right),
                y: axis_step_exec(down, up),
            };
            world.objects.set(i, o2);
        }
        i = i + 1;
    }
    proof {
        if old(world).wf() {
            assert forall|i: int| 0 <= i < world.objects@.len() implies (
            #[trigger] world.objects@[i]).wf() by {
                assert(old(world).objects@[i].wf());
            }
        }
    }
}

/// Relies on `rand::random_range` over `i64`: a uniformly random value in
/// the half-open range, which always lies within it; the empty range (on
/// which it panics) is excluded by the precondition.
#[verifier::external_body]
fn random_in_range(lo: i64, hi: i64) -> (r: i64)
    requires
        lo < hi,
    ensures
        lo <= r < hi,
{
    rand::random_range(lo..hi)
}

/// What one tick of a spawn or shot attempt reported; exhaustion is
/// non-fatal and the caller may log it.
#[derive(Clone, Copy, Debug, PartialEq, Eq, Structural)]
pub enum SpawnOutcome {
    Spawned,
    Exhausted,
    Waiting,
}

/// A freshly spawned enemy: placed at a horizontal position inside the safe
/// band at the fixed spawn height, made visible, and nudged downward.
pub open spec fn enemy_placed(o: GameObject, x: i64) -> GameObject {
    GameObject {
        pos: Vec2i { x: x, y: ENEMY_SPAWN_Y },
        visible: true,
        appearance: o.appearance,
        faction: o.faction,
        kind: o.kind,
        movable: Movable {
            direction: Vec2i { x: o.movable.direction.x, y: -1i64 },
            speed: o.movable.speed,
        },
        shooter: o.shooter,
    }
}

pub open spec fn pooled_enemy_ok(objs: Seq<GameObject>, h: usize) -> bool {
    &&& h < objs.len()
    &&& objs[h as int].kind == Kind::Unit
    &&& !objs[h as int].visible
    &&& objs[h as int].faction == Faction::Enemy
    &&& objs[h as int].shooter is Some
}

/// The enemy pool matches the arena: every pooled handle refers to an
/// inactive enemy unit, and every checked-out handle stays in bounds.
pub open spec fn enemies_linked(objs: Seq<GameObject>, p: Pool) -> bool {
    &&& forall|k: int|
        0 <= k < p.inactive().len() ==> pooled_enemy_ok(objs, #[trigger] p.inactive()[k])
    &&& forall|h: usize| p.lent().contains(h) ==> h < objs.len()
}

/// Spawn director: when the wave timer has finished, one enemy is pulled
/// from the pool (if any is left), placed at a random horizontal position
/// inside the safe band at the top of the field, made visible and sent
/// downward; the timer is replaced by a fresh one of the same duration
/// whether or not the pool was exhausted. When the timer is still running it
/// merely advances.
pub fn spawn_enemy(
    world: &mut World,
    pool: &mut EnemyPool,
    timer: &mut CooldownTimer,
    delta_ms: u64,
) -> (r: SpawnOutcome)
    requires
        old(pool).0.wf(),
        enemies_linked(old(world).objects@, old(pool).0),
    ensures
        final(pool).0.wf(),
        final(pool).0.capacity() == old(pool).0.capacity(),
        enemies_linked(final(world).objects@, final(pool).0),
        final(world).objects@.len() == old(world).objects@.len(),
        old(world).wf() ==> final(world).wf(),
        (if !old(timer).finished_spec() {
            &&& r == SpawnOutcome::Waiting
            &&& *final(timer) == old(timer).ticked(delta_ms)
            &&& final(world).objects@ == old(world).objects@
            &&& final(pool).0.inactive() == old(pool).0.inactive()
            &&& final(pool).0.lent() == old(pool).0.lent()
        } else {
            &&& *final(timer) == old(timer).reset_spec()
            &&& (if old(pool).0.inactive().len() == 0 {
                &&& r == SpawnOutcome::Exhausted
                &&& final(world).objects@ == old(world).objects@
                &&& final(pool).0.inactive() == old(pool).0.inactive()
                &&& final(pool).0.lent() == old(pool).0.lent()
            } else {
                &&& r == SpawnOutcome::Spawned
                &&& final(pool).0.inactive() == old(pool).0.inactive().drop_first()
                &&& final(pool).0.lent() == old(pool).0.lent().insert(
                    old(pool).0.inactive()[0],
                )
                &&& exists|x: i64|
                    ENEMY_SPAWN_X_MIN <= x < ENEMY_SPAWN_X_MAX && final(world).objects@ == old(
                        world,
                    ).objects@.update(
                        old(pool).0.inactive()[0] as int,
                        #[trigger] enemy_placed(
                            old(world).objects@[old(pool).0.inactive()[0] as int],
                            x,
                        ),
                    )
            })
        }),
{
    if timer.finished() {
        let r = match pool.spawn() {
            Some(h) => {
                let x = random_in_range(ENEMY_SPAWN_X_MIN, ENEMY_SPAWN_X_MAX);
                let mut o = world.objects[h];
                o.pos = Vec2i { x: x, y: ENEMY_SPAWN_Y };
                o.visible = true;
                o.movable.direction.y = -1;
                world.objects.set(h, o);
                proof {
                    assert(world.objects@ == old(world).objects@.update(
                        h as int,
                        enemy_placed(old(world).objects@[h as int], x),
                    ));
                }
                SpawnOutcome::Spawned
            },
            None => SpawnOutcome::Exhausted,
        };
        timer.reset();
        r
    } else {
        timer.tick(delta_ms);
        SpawnOutcome::Waiting
    }
}

/// The record a firing attempt looks for: a shooter of the player's faction.
pub open spec fn is_player_shooter(o: GameObject) -> bool {
    o.faction == Faction::Player && o.shooter is Some
}

/// The first player shooter at or after `i`, or the arena length when there
/// is none.
pub open spec fn find_player_from(objs: Seq<GameObject>, i: int) -> int
    decreases objs.len() - i,
{
    if i >= objs.len() {
        objs.len() as int
    } else if is_player_shooter(objs[i]) {
        i
    } else {
        find_player_from(objs, i + 1)
    }
}

proof fn lemma_find_player_skip(objs: Seq<GameObject>, i: int)
    requires
        0 <= i <= objs.len(),
        forall|j: int| 0 <= j < i ==> !is_player_shooter(#[trigger] objs[j]),
    ensures
        find_player_from(objs, 0) == find_player_from(objs, i),
    decreases i,
{
    if i > 0 {
        lemma_find_player_skip(objs, i - 1);
    }
}

/// The record with its weapon cooldown replaced and everything else kept.
pub open spec fn with_shooter_timer(o: GameObject, t: CooldownTimer) -> GameObject {
    GameObject {
        pos: o.pos,
        visible: o.visible,
        appearance: o.appearance,
        faction: o.faction,
        kind: o.kind,
        movable: o.movable,
        shooter: Some(Shooter { automatic: o.shooter->0.automatic, weapon_cool_down: t }),
    }
}

/// A bullet the player fired: at the player's muzzle, heading straight up,
/// owned by the player's faction.
pub open spec fn player_fired_bullet(b: GameObject, p: Vec2i) -> GameObject {
    GameObject {
        pos: Vec2i { x: p.x, y: sat_i64(p.y + PLAYER_FIRE_OFFSET) },
        visible: true,
        appearance: Appearance::PlayerBullet,
        faction: Faction::Player,
        kind: b.kind,
        movable: Movable { direction: Vec2i { x: 0, y: 1 }, speed: PLAYER_BULLET_SPEED },
        shooter: b.shooter,
    }
}

/// A bullet an enemy fired: at the enemy's muzzle, heading straight down,
/// owned by the enemy faction.
pub open spec fn enemy_fired_bullet(b: GameObject, p: Vec2i) -> GameObject {
    GameObject {
        pos: Vec2i { x: p.x, y: sat_i64(p.y - ENEMY_FIRE_OFFSET) },
        visible: true,
        appearance: Appearance::EnemyBullet,
        faction: Faction::Enemy,
        kind: b.kind,
        movable: Movable { direction: Vec2i { x: 0, y: -1i64 }, speed: ENEMY_BULLET_SPEED },
        shooter: b.shooter,
    }
}

pub open spec fn pooled_bullet_ok(objs: Seq<GameObject>, h: usize) -> bool {
    &&& h < objs.len()
    &&& objs[h as int].kind == Kind::Bullet
    &&& !objs[h as int].visible
    &&& objs[h as int].shooter is None
}

pub open spec fn lent_bullet_ok(objs: Seq<GameObject>, h: usize) -> bool {
    &&& h < objs.len()
    &&& objs[h as int].kind == Kind::Bullet
    &&& objs[h as int].shooter is None
}

/// The bullet pool's model matches the arena: every pooled handle refers to
/// an inactive bullet record without a shooter, every checked-out handle to
/// a bullet record, and every active (visible) bullet is checked out, so
/// only reclamation can return it.
pub open spec fn bullets_linked_model(objs: Seq<GameObject>, q: Seq<usize>, lent: Set<usize>) -> bool {
    &&& forall|k: int| 0 <= k < q.len() ==> pooled_bullet_ok(objs, #[trigger] q[k])
    &&& forall|h: usize| #[trigger] lent.contains(h) ==> lent_bullet_ok(objs, h)
    &&& forall|j: int|
        0 <= j < objs.len() && (#[trigger] objs[j]).kind == Kind::Bullet && objs[j].visible
            ==> lent.contains(j as usize)
}

pub open spec fn bullets_linked(objs: Seq<GameObject>, p: Pool) -> bool {
    bullets_linked_model(objs, p.inactive(), p.lent())
}

/// What the systems may change of a record within one combat pass: a
/// shooter's timer ticks or resets, and a pooled bullet may be fired. Kind
/// never changes; only bullets change visibility or faction; shooters stay
/// shooters.
pub open spec fn autofire_shape(o0: GameObject, o1: GameObject) -> bool {
    &&& o1.kind == o0.kind
    &&& (o1.shooter is Some <==> o0.shooter is Some)
    &&& (o0.kind != Kind::Bullet ==> o1.visible == o0.visible && o1.faction == o0.faction)
}

/// What one tick of the player's firing rules reported.
#[derive(Clone, Copy, Debug, PartialEq, Eq, Structural)]
pub enum ShotOutcome {
    Fired,
    Exhausted,
    Cooling,
    Idle,
    NoShooter,
}

/// Player firing, per tick: while the cooldown runs it merely advances and
/// nothing else happens; once it has finished, holding fire pulls a bullet
/// from the pool and activates it at the player's muzzle, and the cooldown
/// is reset on any fire attempt, exhausted or not; without fire input the
/// finished cooldown just stays finished.
pub fn player_shoot(world: &mut World, bullets: &mut BulletPool, fire: bool, delta_ms: u64) -> (r:
    ShotOutcome)
    requires
        old(bullets).0.wf(),
        bullets_linked(old(world).objects@, old(bullets).0),
    ensures
        final(bullets).0.wf(),
        final(bullets).0.capacity() == old(bullets).0.capacity(),
        bullets_linked(final(world).objects@, final(bullets).0),
        final(world).objects@.len() == old(world).objects@.len(),
        old(world).wf() ==> final(world).wf(),
        forall|j: int|
            0 <= j < old(world).objects@.len() ==> autofire_shape(
                #[trigger] old(world).objects@[j],
                final(world).objects@[j],
            ),
        r == shot_outcome(old(world).objects@, old(bullets).0.inactive(), fire),
        ({
            let s = shot_applied(
                old(world).objects@,
                old(bullets).0.inactive(),
                old(bullets).0.lent(),
                fire,
                delta_ms,
            );
            &&& final(world).objects@ == s.0
            &&& final(bullets).0.inactive() == s.1
            &&& final(bullets).0.lent() == s.2
        }),
{
    let n = world.objects.len();
    let mut p: usize = 0;
    let mut found = false;
    while p < n && !found
        invariant
            n == world.objects@.len(),
            world.objects@ == old(world).objects@,
            p <= n,
            forall|j: int| 0 <= j < p ==> !is_player_shooter(#[trigger] world.objects@[j]),
            found ==> p < n && is_player_shooter(world.objects@[p as int]),
        decreases n - p + (if found { 0int } else { 1int }),
    {
        let o = world.objects[p];
        if o.faction == Faction::Player && o.shooter.is_some() {
            found = true;
        } else {
            p = p + 1;
        }
    }
    proof {
        lemma_find_player_skip(old(world).objects@, p as int);
    }
    if !found {
        return ShotOutcome::NoShooter;
    }
    let o = world.objects[p];
    let sh = o.shooter.unwrap();
    if !sh.weapon_cool_down.finished() {
        let mut sh2 = sh;
        sh2.weapon_cool_down.tick(delta_ms);
        let mut o2 = o;
        o2.shooter = Some(sh2);
        world.objects.set(p, o2);
        proof {
            reestablish_linked_after_shooter_update(
                old(world).objects@,
                world.objects@,
                bullets.0.inactive(),
                bullets.0.lent(),
                p as int,
            );
        }
        ShotOutcome::Cooling
    } else if fire {
        let res = match bullets.spawn() {
            Some(b) => {
                proof {
                    assert(pooled_bullet_ok(old(world).objects@, b));
                }
                let bo = world.objects[b];
                let nb = GameObject {
                    pos: Vec2i { x: o.pos.x, y: sat_add_coord(o.pos.y, PLAYER_FIRE_OFFSET) },
                    visible: true,
                    appearance: Appearance::PlayerBullet,
                    faction: Faction::Player,
                    kind: bo.kind,
                    movable: Movable {
                        direction: Vec2i { x: 0, y: 1 },
                        speed: PLAYER_BULLET_SPEED,
                    },
                    shooter: bo.shooter,
                };
                world.objects.set(b, nb);
                ShotOutcome::Fired
            },
            None => ShotOutcome::Exhausted,
        };
        let mut o2 = world.objects[p];
        let mut sh2 = sh;
        sh2.weapon_cool_down.reset();
        o2.shooter = Some(sh2);
        world.objects.set(p, o2);
        proof {
            let objs = old(world).objects@;
            let pi = p as int;
            if res == ShotOutcome::Fired {
                let b = old(bullets).0.inactive()[0];
                assert(objs[b as int].shooter is None);
                assert(objs[pi].shooter is Some);
                assert(b as int != pi);
                assert(world.objects@ == objs.update(
                    b as int,
                    player_fired_bullet(objs[b as int], objs[pi].pos),
                ).update(pi, with_shooter_timer(objs[pi], sh.weapon_cool_down.reset_spec())));
                assert forall|k: int|
                    0 <= k < bullets.0.inactive().len() implies pooled_bullet_ok(
                    world.objects@,
                    #[trigger] bullets.0.inactive()[k],
                ) by {
                    let h = bullets.0.inactive()[k];
                    assert(h == old(bullets).0.inactive()[k + 1]);
                    assert(pooled_bullet_ok(objs, h));
                    assert(h != b);
                    assert(h as int != pi);
                }
                assert forall|h: usize| #[trigger] bullets.0.lent().contains(h) implies
                    lent_bullet_ok(world.objects@, h) by {
                    if h != b {
                        assert(old(bullets).0.lent().contains(h));
                        assert(lent_bullet_ok(objs, h));
                        assert(h as int != pi);
                    }
                }
                assert forall|j: int|
                    0 <= j < world.objects@.len() && (#[trigger] world.objects@[j]).kind
                        == Kind::Bullet && world.objects@[j].visible implies bullets.0.lent()
                    .contains(j as usize) by {
                    if j != b as int && j != pi {
                        assert(objs[j].kind == Kind::Bullet && objs[j].visible);
                    }
                }
            } else {
                assert(world.objects@ == objs.update(
                    pi,
                    with_shooter_timer(objs[pi], sh.weapon_cool_down.reset_spec()),
                ));
                reestablish_linked_after_shooter_update(
                    objs,
                    world.objects@,
                    bullets.0.inactive(),
                    bullets.0.lent(),
                    pi,
                );
            }
        }
        res
    } else {
        ShotOutcome::Idle
    }
}

/// Updating only a shooter's timer at index `p` cannot disturb the link
/// between the arena and the bullet pool: pooled and checked-out bullet
/// records have no shooter, so index `p` is none of them.
proof fn reestablish_linked_after_shooter_update(
    objs: Seq<GameObject>,
    objs2: Seq<GameObject>,
    q: Seq<usize>,
    lent: Set<usize>,
    p: int,
)
    requires
        bullets_linked_model(objs, q, lent),
        0 <= p < objs.len(),
        objs[p].shooter is Some,
        objs2 == objs.update(p, with_shooter_timer(objs[p], objs2[p].shooter->0.weapon_cool_down)),
    ensures
        bullets_linked_model(objs2, q, lent),
{
    assert forall|k: int| 0 <= k < q.len() implies pooled_bullet_ok(objs2, #[trigger] q[k]) by {
        let h = q[k];
        assert(pooled_bullet_ok(objs, h));
        assert(h as int != p);
    }
    assert forall|h: usize| #[trigger] lent.contains(h) implies lent_bullet_ok(objs2, h) by {
        assert(lent_bullet_ok(objs, h));
        assert(h as int != p);
    }
    assert forall|j: int|
        0 <= j < objs2.len() && (#[trigger] objs2[j]).kind == Kind::Bullet && objs2[j].visible
            implies lent.contains(j as usize) by {
        assert(objs[j].kind == Kind::Bullet && objs[j].visible);
    }
}


/// The record enemy autofire acts on: a shooter of the enemy faction.
pub open spec fn is_enemy_shooter(o: GameObject) -> bool {
    o.faction == Faction::Enemy && o.shooter is Some
}

/// One enemy shooter's turn of the autofire pass, at index `i`: an
/// unfinished cooldown merely advances (even while the enemy is hidden); a
/// hidden enemy with a finished cooldown does nothing; a visible one pulls
/// the head bullet from the queue if any is left and fires it downward from
/// its muzzle, and its cooldown is reset after any fire attempt, exhausted
/// or not.
pub open spec fn autofire_step(
    objs: Seq<GameObject>,
    q: Seq<usize>,
    lent: Set<usize>,
    delta_ms: u64,
    i: int,
) -> (Seq<GameObject>, Seq<usize>, Set<usize>) {
    let o = objs[i];
    if !is_enemy_shooter(o) {
        (objs, q, lent)
    } else {
        let sh = o.shooter->0;
        if !sh.weapon_cool_down.finished_spec() {
            (objs.update(i, with_shooter_timer(o, sh.weapon_cool_down.ticked(delta_ms))), q, lent)
        } else if !o.visible {
            (objs, q, lent)
        } else if q.len() > 0 {
            let b = q[0];
            (
                objs.update(b as int, enemy_fired_bullet(objs[b as int], o.pos)).update(
                    i,
                    with_shooter_timer(o, sh.weapon_cool_down.reset_spec()),
                ),
                q.drop_first(),
                lent.insert(b),
            )
        } else {
            (objs.update(i, with_shooter_timer(o, sh.weapon_cool_down.reset_spec())), q, lent)
        }
    }
}

/// The arena and bullet pool model after the autofire pass has handled the
/// first `n` records, in index order.
pub open spec fn autofire_upto(
    objs: Seq<GameObject>,
    q: Seq<usize>,
    lent: Set<usize>,
    delta_ms: u64,
    n: int,
) -> (Seq<GameObject>, Seq<usize>, Set<usize>)
    decreases n,
{
    if n <= 0 {
        (objs, q, lent)
    } else {
        let s = autofire_upto(objs, q, lent, delta_ms, n - 1);
        autofire_step(s.0, s.1, s.2, delta_ms, n - 1)
    }
}

/// Firing the head bullet of the queue and resetting the firer's cooldown
/// keeps the arena and the bullet pool linked: the fired record is a bullet
/// without a shooter, it becomes visible and checked out, and nothing else
/// that the link speaks of changes.
proof fn reestablish_linked_after_fire(
    objs: Seq<GameObject>,
    objs2: Seq<GameObject>,
    q0: Seq<usize>,
    l0: Set<usize>,
    i: int,
    nb: GameObject,
    t: CooldownTimer,
)
    requires
        bullets_linked_model(objs, q0, l0),
        q0.no_duplicates(),
        0 <= i < objs.len(),
        objs[i].shooter is Some,
        q0.len() > 0,
        nb.kind == objs[q0[0] as int].kind,
        nb.shooter == objs[q0[0] as int].shooter,
        objs2 == objs.update(q0[0] as int, nb).update(i, with_shooter_timer(objs[i], t)),
    ensures
        bullets_linked_model(objs2, q0.drop_first(), l0.insert(q0[0])),
{
    let b = q0[0];
    assert(pooled_bullet_ok(objs, b));
    assert(b as int != i);
    let q1 = q0.drop_first();
    let l1 = l0.insert(b);
    assert forall|k: int| 0 <= k < q1.len() implies pooled_bullet_ok(objs2, #[trigger] q1[k]) by {
        let h = q1[k];
        assert(h == q0[k + 1]);
        assert(pooled_bullet_ok(objs, h));
        assert(h != b);
        assert(h as int != i);
    }
    assert forall|h: usize| #[trigger] l1.contains(h) implies lent_bullet_ok(objs2, h) by {
        if h != b {
            assert(l0.contains(h));
            assert(lent_bullet_ok(objs, h));
            assert(h as int != i);
        }
    }
    assert forall|j: int|
        0 <= j < objs2.len() && (#[trigger] objs2[j]).kind == Kind::Bullet && objs2[j].visible
            implies l1.contains(j as usize) by {
        if j != b as int && j != i {
            assert(objs[j].kind == Kind::Bullet && objs[j].visible);
        } else if j == i {
            assert(objs[j].kind == Kind::Bullet && objs[j].visible);
        }
    }
}

/// Enemy autofire, per tick: every enemy shooter takes its turn in index
/// order, as `autofire_step` describes; bullets leave the shared pool head
/// first, so earlier enemies are served first when bullets run short.
pub fn shooting(world: &mut World, bullets: &mut BulletPool, delta_ms: u64)
    requires
        old(bullets).0.wf(),
        bullets_linked(old(world).objects@, old(bullets).0),
    ensures
        final(bullets).0.wf(),
        final(bullets).0.capacity() == old(bullets).0.capacity(),
        bullets_linked(final(world).objects@, final(bullets).0),
        final(world).objects@.len() == old(world).objects@.len(),
        old(world).wf() ==> final(world).wf(),
        forall|j: int|
            0 <= j < old(world).objects@.len() ==> autofire_shape(
                #[trigger] old(world).objects@[j],
                final(world).objects@[j],
            ),
        ({
            let s = autofire_upto(
                old(world).objects@,
                old(bullets).0.inactive(),
                old(bullets).0.lent(),
                delta_ms,
                old(world).objects@.len() as int,
            );
            &&& final(world).objects@ == s.0
            &&& final(bullets).0.inactive() == s.1
            &&& final(bullets).0.lent() == s.2
        }),
{
    let n = world.objects.len();
    let mut i: usize = 0;
    while i < n
        invariant
            n == old(world).objects@.len(),
            world.objects@.len() == n,
            i <= n,
            bullets.0.wf(),
            bullets.0.capacity() == old(bullets).0.capacity(),
            bullets_linked(world.objects@, bullets.0),
            ({
                let s = autofire_upto(
                    old(world).objects@,
                    old(bullets).0.inactive(),
                    old(bullets).0.lent(),
                    delta_ms,
                    i as int,
                );
                &&& world.objects@ == s.0
                &&& bullets.0.inactive() == s.1
                &&& bullets.0.lent() == s.2
            }),
            forall|j: int|
                0 <= j < n ==> autofire_shape(
                    #[trigger] old(world).objects@[j],
                    world.objects@[j],
                ),
            old(world).wf() ==> world.wf(),
        decreases n - i,
    {
        let ghost pre_objs = world.objects@;
        let ghost pre_q = bullets.0.inactive();
        let ghost pre_l = bullets.0.lent();
        let o = world.objects[i];
        if o.faction == Faction::Enemy && o.shooter.is_some() {
            let sh = o.shooter.unwrap();
            if !sh.weapon_cool_down.finished() {
                let mut sh2 = sh;
                sh2.weapon_cool_down.tick(delta_ms);
                let mut o2 = o;
                o2.shooter = Some(sh2);
                world.objects.set(i, o2);
                proof {
                    reestablish_linked_after_shooter_update(
                        pre_objs,
                        world.objects@,
                        pre_q,
                        pre_l,
                        i as int,
                    );
                }
            } else if !o.visible {
            } else {
                match bullets.spawn() {
                    Some(b) => {
                        proof {
                            assert(pooled_bullet_ok(pre_objs, b));
                        }
                        let bo = world.objects[b];
                        let nb = GameObject {
                            pos: Vec2i {
                                x: o.pos.x,
                                y: sat_add_coord(o.pos.y, -ENEMY_FIRE_OFFSET),
                            },
                            visible: true,
                            appearance: Appearance::EnemyBullet,
                            faction: Faction::Enemy,
                            kind: bo.kind,
                            movable: Movable {
                                direction: Vec2i { x: 0, y: -1 },
                                speed: ENEMY_BULLET_SPEED,
                            },
                            shooter: bo.shooter,
                        };
                        world.objects.set(b, nb);
                        proof {
                            assert(b as int != i as int);
                        }
                        let mut o2 = world.objects[i];
                        let mut sh2 = sh;
                        sh2.weapon_cool_down.reset();
                        o2.shooter = Some(sh2);
                        world.objects.set(i, o2);
                        proof {
                            reestablish_linked_after_fire(
                                pre_objs,
                                world.objects@,
                                pre_q,
                                pre_l,
                                i as int,
                                nb,
                                sh.weapon_cool_down.reset_spec(),
                            );
                        }
                    },
                    None => {
                        let mut o2 = world.objects[i];
                        let mut sh2 = sh;
                        sh2.weapon_cool_down.reset();
                        o2.shooter = Some(sh2);
                        world.objects.set(i, o2);
                        proof {
                            reestablish_linked_after_shooter_update(
                                pre_objs,
                                world.objects@,
                                pre_q,
                                pre_l,
                                i as int,
                            );
                        }
                    },
                }
            }
        }
        i = i + 1;
    }
}

/// Where a bullet is reclaimed: once its centre passes any of the four
/// boundary lines, each offset outward by half the bullet's own size.
pub open spec fn out_of_bounds(p: Vec2i) -> bool {
    ||| p.y >= BOUNDARY_TOP
    ||| p.y <= BOUNDARY_BOTTOM
    ||| p.x <= BOUNDARY_LEFT
    ||| p.x >= BOUNDARY_RIGHT
}

/// Reclamation applies to active bullets beyond a boundary, whatever their
/// faction.
pub open spec fn should_reclaim(o: GameObject) -> bool {
    o.kind == Kind::Bullet && o.visible && out_of_bounds(o.pos)
}

/// A reclaimed bullet: motion halted, faction back to neutral, hidden;
/// position and everything else kept.
pub open spec fn reclaimed_obj(o: GameObject) -> GameObject {
    GameObject {
        pos: o.pos,
        visible: false,
        appearance: o.appearance,
        faction: Faction::Neutral,
        kind: o.kind,
        movable: Movable { direction: Vec2i { x: 0, y: 0 }, speed: o.movable.speed },
        shooter: o.shooter,
    }
}

/// The arena and bullet queue after reclamation has examined the first `n`
/// records in index order: each reclaimed bullet is appended to the queue
/// tail in that order.
pub open spec fn reclaim_upto(
    objs: Seq<GameObject>,
    q: Seq<usize>,
    lent: Set<usize>,
    n: int,
) -> (Seq<GameObject>, Seq<usize>, Set<usize>)
    decreases n,
{
    if n <= 0 {
        (objs, q, lent)
    } else {
        let s = reclaim_upto(objs, q, lent, n - 1);
        let i = n - 1;
        if should_reclaim(s.0[i]) {
            (s.0.update(i, reclaimed_obj(s.0[i])), s.1.push(i as usize), s.2.remove(i as usize))
        } else {
            s
        }
    }
}

/// Reclaiming the bullet at index `i` keeps the arena and the pool linked.
proof fn reestablish_linked_after_reclaim(
    objs: Seq<GameObject>,
    objs2: Seq<GameObject>,
    q0: Seq<usize>,
    l0: Set<usize>,
    i: int,
)
    requires
        objs.len() <= usize::MAX,
        bullets_linked_model(objs, q0, l0),
        forall|k: int| 0 <= k < q0.len() ==> !l0.contains(#[trigger] q0[k]),
        0 <= i < objs.len(),
        should_reclaim(objs[i]),
        objs2 == objs.update(i, reclaimed_obj(objs[i])),
    ensures
        bullets_linked_model(objs2, q0.push(i as usize), l0.remove(i as usize)),
{
    assert(l0.contains(i as usize));
    assert(lent_bullet_ok(objs, i as usize));
    let q1 = q0.push(i as usize);
    let l1 = l0.remove(i as usize);
    assert forall|k: int| 0 <= k < q1.len() implies pooled_bullet_ok(objs2, #[trigger] q1[k]) by {
        if k < q0.len() {
            let h = q0[k];
            assert(pooled_bullet_ok(objs, h));
            assert(h as int != i);
        } else {
            assert(q1[k] == i as usize);
        }
    }
    assert forall|h: usize| #[trigger] l1.contains(h) implies lent_bullet_ok(objs2, h) by {
        assert(l0.contains(h));
        assert(lent_bullet_ok(objs, h));
    }
    assert forall|j: int|
        0 <= j < objs2.len() && (#[trigger] objs2[j]).kind == Kind::Bullet && objs2[j].visible
            implies l1.contains(j as usize) by {
        assert(j != i);
        assert(objs[j].kind == Kind::Bullet && objs[j].visible);
    }
}

/// Boundary reclamation, per tick: every active bullet whose centre has
/// passed any of the four boundary lines is halted, returned to the neutral
/// faction, hidden, and recycled to the tail of its pool, in index order and
/// regardless of its faction; every other record is left exactly as it was.
pub fn recycle_bullet_when_it_is_out_of_boundary(world: &mut World, bullets: &mut BulletPool)
    requires
        old(bullets).0.wf(),
        bullets_linked(old(world).objects@, old(bullets).0),
    ensures
        final(bullets).0.wf(),
        final(bullets).0.capacity() == old(bullets).0.capacity(),
        bullets_linked(final(world).objects@, final(bullets).0),
        final(world).objects@.len() == old(world).objects@.len(),
        old(world).wf() ==> final(world).wf(),
        forall|j: int|
            0 <= j < old(world).objects@.len() ==> final(world).objects@[j] == (
            if should_reclaim(#[trigger] old(world).objects@[j]) {
                reclaimed_obj(old(world).objects@[j])
            } else {
                old(world).objects@[j]
            }),
        ({
            let s = reclaim_upto(
                old(world).objects@,
                old(bullets).0.inactive(),
                old(bullets).0.lent(),
                old(world).objects@.len() as int,
            );
            &&& final(world).objects@ == s.0
            &&& final(bullets).0.inactive() == s.1
            &&& final(bullets).0.lent() == s.2
        }),
{
    let n = world.objects.len();
    let mut i: usize = 0;
    while i < n
        invariant
            n == old(world).objects@.len(),
            world.objects@.len() == n,
            i <= n,
            bullets.0.wf(),
            bullets.0.capacity() == old(bullets).0.capacity(),
            bullets_linked(world.objects@, bullets.0),
            ({
                let s = reclaim_upto(
                    old(world).objects@,
                    old(bullets).0.inactive(),
                    old(bullets).0.lent(),
                    i as int,
                );
                &&& world.objects@ == s.0
                &&& bullets.0.inactive() == s.1
                &&& bullets.0.lent() == s.2
            }),
            forall|j: int|
                0 <= j < i ==> world.objects@[j] == (
                if should_reclaim(#[trigger] old(world).objects@[j]) {
                    reclaimed_obj(old(world).objects@[j])
                } else {
                    old(world).objects@[j]
                }),
            forall|j: int| i <= j < n ==> world.objects@[j] == old(world).objects@[j],
            old(world).wf() ==> world.wf(),
        decreases n - i,
    {
        let ghost pre_objs = world.objects@;
        let ghost pre_q = bullets.0.inactive();
        let ghost pre_l = bullets.0.lent();
        let o = world.objects[i];
        if o.kind == Kind::Bullet && o.visible && (o.pos.y >= BOUNDARY_TOP || o.pos.y
            <= BOUNDARY_BOTTOM || o.pos.x <= BOUNDARY_LEFT || o.pos.x >= BOUNDARY_RIGHT) {
            let mut o2 = o;
            o2.movable.direction = Vec2i { x: 0, y: 0 };
            o2.faction = Faction::Neutral;
            o2.visible = false;
            world.objects.set(i, o2);
            bullets.recycle(i);
            proof {
                reestablish_linked_after_reclaim(pre_objs, world.objects@, pre_q, pre_l, i as int);
            }
        }
        i = i + 1;
    }
}


/// What the player's firing rules report on a given state.
pub open spec fn shot_outcome(objs: Seq<GameObject>, q: Seq<usize>, fire: bool) -> ShotOutcome {
    let p = find_player_from(objs, 0);
    if p == objs.len() {
        ShotOutcome::NoShooter
    } else if !objs[p].shooter->0.weapon_cool_down.finished_spec() {
        ShotOutcome::Cooling
    } else if fire {
        if q.len() > 0 {
            ShotOutcome::Fired
        } else {
            ShotOutcome::Exhausted
        }
    } else {
        ShotOutcome::Idle
    }
}

/// The arena and bullet pool model after the player's firing rules: while
/// the cooldown runs it merely advances; once finished, a held trigger
/// fires the head bullet of the queue from the player's muzzle (or resets
/// the cooldown with no shot if the pool is exhausted); no trigger, no
/// change.
pub open spec fn shot_applied(
    objs: Seq<GameObject>,
    q: Seq<usize>,
    lent: Set<usize>,
    fire: bool,
    delta_ms: u64,
) -> (Seq<GameObject>, Seq<usize>, Set<usize>) {
    let p = find_player_from(objs, 0);
    if p == objs.len() {
        (objs, q, lent)
    } else {
        let sh = objs[p].shooter->0;
        if !sh.weapon_cool_down.finished_spec() {
            (objs.update(p, with_shooter_timer(objs[p], sh.weapon_cool_down.ticked(delta_ms))), q, lent)
        } else if fire {
            if q.len() > 0 {
                let b = q[0] as int;
                (
                    objs.update(b, player_fired_bullet(objs[b], objs[p].pos)).update(
                        p,
                        with_shooter_timer(objs[p], sh.weapon_cool_down.reset_spec()),
                    ),
                    q.drop_first(),
                    lent.insert(q[0]),
                )
            } else {
                (objs.update(p, with_shooter_timer(objs[p], sh.weapon_cool_down.reset_spec())), q, lent)
            }
        } else {
            (objs, q, lent)
        }
    }
}

/// The arena after input handling: every player unit's direction replaced
/// by the held keys' step vector.
pub open spec fn input_applied(
    objs: Seq<GameObject>,
    up: bool,
    down: bool,
    left: bool,
    right: bool,
) -> Seq<GameObject> {
    Seq::new(
        objs.len(),
        |i: int|
            if is_player_unit(objs[i]) {
                with_direction(objs[i], input_direction(up, down, left, right))
            } else {
                objs[i]
            },
    )
}

/// The arena after the movement system: every record advanced one step.
pub open spec fn moved_all(objs: Seq<GameObject>) -> Seq<GameObject> {
    Seq::new(objs.len(), |i: int| moved_obj(objs[i]))
}

/// How the spawn director may transform the arena when its timer has
/// finished and an enemy handle `h` is available: the enemy is placed at
/// some horizontal position inside the safe band; which one is the random
/// draw's choice.
pub open spec fn spawn_stage_ok(objs: Seq<GameObject>, h: usize, objs2: Seq<GameObject>) -> bool {
    exists|x: i64|
        ENEMY_SPAWN_X_MIN <= x < ENEMY_SPAWN_X_MAX && objs2 == objs.update(
            h as int,
            #[trigger] enemy_placed(objs[h as int], x),
        )
}


} // verus!
