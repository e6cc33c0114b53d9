use vstd::prelude::*;
use std::collections::VecDeque;
use crate::world::{World, pooled_enemy_obj, pooled_bullet_obj, make_pooled_enemy,
    make_pooled_bullet};

verus! {

/// Fixed-capacity FIFO pool of reusable handles. A handle is either inside
/// the queue (its entity is inactive) or checked out (its entity is live in
/// the world); the ghost set `checked_out` tracks the latter, so that the
/// conservation of handles is stated and proved, not assumed.
pub struct Pool {
    queue: VecDeque<usize>,
    checked_out: Ghost<Set<usize>>,
}

impl Pool {
    /// The inactive handles, oldest-recycled first.
    pub closed spec fn inactive(self) -> Seq<usize> {
        self.queue@
    }

    /// The handles currently checked out of this pool.
    pub closed spec fn lent(self) -> Set<usize> {
        self.checked_out@
    }

    /// Handle conservation: handles inside the pool plus handles checked
    /// out. Every operation below preserves this count.
    pub open spec fn capacity(self) -> nat {
        self.inactive().len() + self.lent().len()
    }

    /// A handle never sits in the queue twice, nor both in the queue and
    /// checked out.
    pub open spec fn wf(self) -> bool {
        &&& self.inactive().no_duplicates()
        &&& self.lent().finite()
        &&& forall|k: int|
            0 <= k < self.inactive().len() ==> !self.lent().contains(
                #[trigger] self.inactive()[k],
            )
    }

    pub fn empty() -> (p: Pool)
        ensures
            p.inactive() =~= Seq::<usize>::empty(),
            p.lent() =~= Set::<usize>::empty(),
            p.wf(),
    {
        Pool { queue: VecDeque::new(), checked_out: Ghost(Set::empty()) }
    }

    /// Stocks one fresh handle at creation time.
    pub fn stock(&mut self, h: usize)
        requires
            old(self).wf(),
            !old(self).inactive().contains(h),
            !old(self).lent().contains(h),
        ensures
            final(self).wf(),
            final(self).inactive() == old(self).inactive().push(h),
            final(self).lent() == old(self).lent(),
    {
        self.queue.push_back(h);
    }

    /// FIFO acquire: removes and returns the head of the inactive queue, or
    /// nothing when the pool is exhausted. Exhaustion leaves the pool
    /// untouched; either way the capacity is conserved.
    pub fn spawn(&mut self) -> (r: Option<usize>)
        requires
            old(self).wf(),
        ensures
            final(self).wf(),
            final(self).capacity() == old(self).capacity(),
            (match r {
                None => {
                    &&& old(self).inactive().len() == 0
                    &&& final(self).inactive() == old(self).inactive()
                    &&& final(self).lent() == old(self).lent()
                },
                Some(h) => {
                    &&& old(self).inactive().len() > 0
                    &&& h == old(self).inactive()[0]
                    &&& final(self).inactive() == old(self).inactive().drop_first()
                    &&& final(self).lent() == old(self).lent().insert(h)
                },
            }),
    {
        let r = self.queue.pop_front();
        match r {
            Some(h) => {
                proof {
                    assert(old(self).inactive()[0] == h);
                }
                self.checked_out = Ghost(self.checked_out@.insert(h));
                proof {
                    let q0 = old(self).inactive();
                    let q1 = self.queue@;
                    assert(q1 =~= q0.drop_first());
                    assert forall|k: int| 0 <= k < q1.len() implies !self.checked_out@.contains(
                        #[trigger] q1[k],
                    ) by {
                        assert(q1[k] == q0[k + 1]);
                        assert(!old(self).lent().contains(q0[k + 1]));
                        assert(q0[k + 1] != q0[0]);
                    }
                }
                Some(h)
            },
            None => None,
        }
    }

    /// Recycle: appends the handle to the tail of the inactive queue. The
    /// handle must have been acquired from this pool and not yet recycled
    /// (a double release is a caller bug, excluded by the precondition).
    pub fn recycle(&mut self, h: usize)
        requires
            old(self).wf(),
            old(self).lent().contains(h),
        ensures
            final(self).wf(),
            final(self).capacity() == old(self).capacity(),
            final(self).inactive() == old(self).inactive().push(h),
            final(self).lent() == old(self).lent().remove(h),
    {
        self.queue.push_back(h);
        self.checked_out = Ghost(self.checked_out@.remove(h));
        proof {
            let q0 = old(self).inactive();
            let q1 = self.queue@;
            assert(q1 =~= q0.push(h));
            assert forall|k: int| 0 <= k < q1.len() implies !self.checked_out@.contains(
                #[trigger] q1[k],
            ) by {
                if k < q0.len() {
                    assert(q1[k] == q0[k]);
                } else {
                    assert(q1[k] == h);
                }
            }
            assert forall|i: int, j: int|
                0 <= i < q1.len() && 0 <= j < q1.len() && i != j implies q1[i] != q1[j] by {
                if i < q0.len() && j < q0.len() {
                    assert(q0[i] != q0[j]);
                } else if i < q0.len() {
                    assert(!old(self).lent().contains(q0[i]));
                } else if j < q0.len() {
                    assert(!old(self).lent().contains(q0[j]));
                }
            }
        }
    }
}

/// FIFO reuse, stated over the queue model the operations above speak of:
/// recycling handles `h1`, `h2`, `h3` in that order into an exhausted pool
/// queues them in that order, so the next three acquires return `h1`, then
/// `h2`, then `h3` (oldest-recycled first).
pub proof fn lemma_fifo_reuse(q0: Seq<usize>, h1: usize, h2: usize, h3: usize)
    requires
        q0.len() == 0,
    ensures
        q0.push(h1).push(h2).push(h3)[0] == h1,
        q0.push(h1).push(h2).push(h3).drop_first()[0] == h2,
        q0.push(h1).push(h2).push(h3).drop_first().drop_first()[0] == h3,
{
}

/// Pool of pre-created enemy units, all hidden at startup.
pub struct EnemyPool(pub Pool);

impl EnemyPool {
    /// Pre-allocates `size` inactive enemy units in the arena and stocks the
    /// pool with their handles, in creation order.
    pub fn init(world: &mut World, size: usize) -> (p: EnemyPool)
        requires
            old(world).objects@.len() + size <= usize::MAX,
        ensures
            p.0.wf(),
            p.0.lent() =~= Set::<usize>::empty(),
            p.0.inactive().len() == size,
            forall|k: int| 0 <= k < size ==> p.0.inactive()[k] == old(world).objects@.len() + k,
            final(world).objects@.len() == old(world).objects@.len() + size,
            forall|j: int|
                0 <= j < old(world).objects@.len() ==> final(world).objects@[j] == old(
                    world,
                ).objects@[j],
            forall|k: int|
                0 <= k < size ==> #[trigger] final(world).objects@[old(world).objects@.len() + k]
                    == pooled_enemy_obj(),
    {
        let mut p = Pool::empty();
        let base = world.objects.len();
        let mut k: usize = 0;
        while k < size
            invariant
                base == old(world).objects@.len(),
                base + size <= usize::MAX,
                k <= size,
                p.wf(),
                p.lent() =~= Set::<usize>::empty(),
                p.inactive().len() == k,
                forall|m: int| 0 <= m < k ==> p.inactive()[m] == base + m,
                world.objects@.len() == base + k,
                forall|j: int| 0 <= j < base ==> world.objects@[j] == old(world).objects@[j],
                forall|m: int| 0 <= m < k ==> #[trigger] world.objects@[base + m] == pooled_enemy_obj(),
            decreases size - k,
        {
            let h = world.objects.len();
            world.objects.push(make_pooled_enemy());
            proof {
                assert(!p.inactive().contains(h)) by {
                    if p.inactive().contains(h) {
                        let m = p.inactive().index_of(h);
                        assert(p.inactive()[m] == base + m);
                    }
                }
            }
            p.stock(h);
            k = k + 1;
        }
        EnemyPool(p)
    }

    /// FIFO acquire of an inactive enemy handle; see `Pool::spawn`.
    pub fn spawn(&mut self) -> (r: Option<usize>)
        requires
            old(self).0.wf(),
        ensures
            final(self).0.wf(),
            final(self).0.capacity() == old(self).0.capacity(),
            (match r {
                None => {
                    &&& old(self).0.inactive().len() == 0
                    &&& final(self).0.inactive() == old(self).0.inactive()
                    &&& final(self).0.lent() == old(self).0.lent()
                },
                Some(h) => {
                    &&& old(self).0.inactive().len() > 0
                    &&& h == old(self).0.inactive()[0]
                    &&& final(self).0.inactive() == old(self).0.inactive().drop_first()
                    &&& final(self).0.lent() == old(self).0.lent().insert(h)
                },
            }),
    {
        self.0.spawn()
    }

    /// Returns a previously acquired enemy handle to the tail of the queue;
    /// see `Pool::recycle`.
    pub fn recycle(&mut self, h: usize)
        requires
            old(self).0.wf(),
            old(self).0.lent().contains(h),
        ensures
            final(self).0.wf(),
            final(self).0.capacity() == old(self).0.capacity(),
            final(self).0.inactive() == old(self).0.inactive().push(h),
            final(self).0.lent() == old(self).0.lent().remove(h),
    {
        self.0.recycle(h)
    }
}

/// Pool of pre-created bullets, all hidden and neutral at startup.
pub struct BulletPool(pub Pool);

impl BulletPool {
    /// Pre-allocates `size` inactive bullets in the arena and stocks the
    /// pool with their handles, in creation order.
    pub fn init(world: &mut World, size: usize) -> (p: BulletPool)
        requires
            old(world).objects@.len() + size <= usize::MAX,
        ensures
            p.0.wf(),
            p.0.lent() =~= Set::<usize>::empty(),
            p.0.inactive().len() == size,
            forall|k: int| 0 <= k < size ==> p.0.inactive()[k] == old(world).objects@.len() + k,
            final(world).objects@.len() == old(world).objects@.len() + size,
            forall|j: int|
                0 <= j < old(world).objects@.len() ==> final(world).objects@[j] == old(
                    world,
                ).objects@[j],
            forall|k: int|
                0 <= k < size ==> #[trigger] final(world).objects@[old(world).objects@.len() + k]
                    == pooled_bullet_obj(),
    {
        let mut p = Pool::empty();
        let base = world.objects.len();
        let mut k: usize = 0;
        while k < size
            invariant
                base == old(world).objects@.len(),
                base + size <= usize::MAX,
                k <= size,
                p.wf(),
                p.lent() =~= Set::<usize>::empty(),
                p.inactive().len() == k,
                forall|m: int| 0 <= m < k ==> p.inactive()[m] == base + m,
                world.objects@.len() == base + k,
                forall|j: int| 0 <= j < base ==> world.objects@[j] == old(world).objects@[j],
                forall|m: int| 0 <= m < k ==> #[trigger] world.objects@[base + m] == pooled_bullet_obj(),
            decreases size - k,
        {
            let h = world.objects.len();
            world.objects.push(make_pooled_bullet());
            proof {
                assert(!p.inactive().contains(h)) by {
                    if p.inactive().contains(h) {
                        let m = p.inactive().index_of(h);
                        assert(p.inactive()[m] == base + m);
                    }
                }
            }
            p.stock(h);
            k = k + 1;
        }
        BulletPool(p)
    }

    /// FIFO acquire of an inactive bullet handle; see `Pool::spawn`.
    pub fn spawn(&mut self) -> (r: Option<usize>)
        requires
            old(self).0.wf(),
        ensures
            final(self).0.wf(),
            final(self).0.capacity() == old(self).0.capacity(),
            (match r {
                None => {
                    &&& old(self).0.inactive().len() == 0
                    &&& final(self).0.inactive() == old(self).0.inactive()
                    &&& final(self).0.lent() == old(self).0.lent()
                },
                Some(h) => {
                    &&& old(self).0.inactive().len() > 0
                    &&& h == old(self).0.inactive()[0]
                    &&& final(self).0.inactive() == old(self).0.inactive().drop_first()
                    &&& final(self).0.lent() == old(self).0.lent().insert(h)
                },
            }),
    {
        self.0.spawn()
    }

    /// Returns a previously acquired bullet handle to the tail of the queue;
    /// see `Pool::recycle`.
    pub fn recycle(&mut self, h: usize)
        requires
            old(self).0.wf(),
            old(self).0.lent().contains(h),
        ensures
            final(self).0.wf(),
            final(self).0.capacity() == old(self).0.capacity(),
            final(self).0.inactive() == old(self).0.inactive().push(h),
            final(self).0.lent() == old(self).0.lent().remove(h),
    {
        self.0.recycle(h)
    }
}

} // verus!
