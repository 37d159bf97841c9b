use vstd::prelude::*;
use crate::particle::{Particle, UNIT};
use crate::random::uniform_inclusive;

verus! {

/// `i` is the first expired particle of `s`.
pub open spec fn first_expired(s: Seq<Particle>, i: int) -> bool {
    &&& 0 <= i < s.len()
    &&& s[i].is_expired()
    &&& forall|j: int| 0 <= j < i ==> !s[j].is_expired()
}

/// Index of the particle that one removal evicts: the first expired
/// particle, or the oldest one (index 0) when none has expired.
pub open spec fn eviction_index(s: Seq<Particle>) -> int {
    if exists|i: int| first_expired(s, i) {
        choose|i: int| first_expired(s, i)
    } else {
        0
    }
}

/// The population after one removal; an empty population stays empty.
pub open spec fn evict_one(s: Seq<Particle>) -> Seq<Particle> {
    if s.len() == 0 {
        s
    } else {
        s.remove(eviction_index(s))
    }
}

/// The population after `k` removals, each chosen afresh.
pub open spec fn evict(s: Seq<Particle>, k: nat) -> Seq<Particle>
    decreases k,
{
    if k == 0 {
        s
    } else {
        evict_one(evict(s, (k - 1) as nat))
    }
}

/// The population size after a churn of `delta`, clamped at zero.
pub open spec fn churned_len(len: int, delta: int) -> int {
    if len + delta < 0 { 0 } else { len + delta }
}

/// `after` is what a churn of `delta` can make of `before` in a world of the
/// given bounds: growth appends `delta` fresh spawns, shrinkage evicts
/// `-delta` particles one at a time.
pub open spec fn churned(
    before: Seq<Particle>,
    delta: int,
    after: Seq<Particle>,
    width: int,
    height: int,
) -> bool {
    if delta > 0 {
        &&& after.len() == before.len() + delta
        &&& after.subrange(0, before.len() as int) == before
        &&& forall|i: int| before.len() <= i < after.len() ==> #[trigger] after[i].is_spawn(width, height)
    } else {
        after == evict(before, (-delta) as nat)
    }
}

pub open spec fn all_wf(s: Seq<Particle>) -> bool {
    forall|i: int| 0 <= i < s.len() ==> #[trigger] s[i].wf()
}

proof fn lemma_first_expired_unique(s: Seq<Particle>, i: int, j: int)
    requires
        first_expired(s, i),
        first_expired(s, j),
    ensures
        i == j,
{
    if i < j {
        assert(!s[i].is_expired());
    } else if j < i {
        assert(!s[j].is_expired());
    }
}

proof fn lemma_evict_one_len(s: Seq<Particle>)
    ensures
        evict_one(s).len() == if s.len() == 0 { 0 } else { s.len() - 1 },
        0 <= eviction_index(s) < s.len() || s.len() == 0,
{
    if exists|i: int| first_expired(s, i) {
        let i = choose|i: int| first_expired(s, i);
        assert(first_expired(s, i));
    }
}

/// However many removals are asked for, the population shrinks by that many
/// and never below empty.
pub proof fn lemma_evict_len(s: Seq<Particle>, k: nat)
    ensures
        evict(s, k).len() == churned_len(s.len() as int, -(k as int)),
    decreases k,
{
    if k > 0 {
        lemma_evict_len(s, (k - 1) as nat);
        lemma_evict_one_len(evict(s, (k - 1) as nat));
    }
}

/// One removal takes the first expired particle when there is one, however
/// old the particles before it are; otherwise it takes the oldest.
pub proof fn lemma_evicts_first_expired(s: Seq<Particle>, i: int)
    requires
        0 <= i < s.len(),
        (s[i].is_expired() && forall|j: int| 0 <= j < i ==> !(#[trigger] s[j]).is_expired())
            || (i == 0 && forall|j: int| 0 <= j < s.len() ==> !(#[trigger] s[j]).is_expired()),
    ensures
        evict_one(s) == s.remove(i),
{
    if s[i].is_expired() {
        assert(first_expired(s, i));
        let c = choose|k: int| first_expired(s, k);
        lemma_first_expired_unique(s, i, c);
    } else {
        assert(!exists|k: int| first_expired(s, k)) by {
            assert forall|k: int| !first_expired(s, k) by {
                if 0 <= k < s.len() {
                    assert(!s[k].is_expired());
                }
            }
        }
    }
}

proof fn lemma_remove_keeps_wf(s: Seq<Particle>, i: int)
    requires
        all_wf(s),
        0 <= i < s.len(),
    ensures
        all_wf(s.remove(i)),
{
    assert forall|j: int| 0 <= j < s.remove(i).len() implies #[trigger] s.remove(i)[j].wf() by {
        if j < i {
            assert(s.remove(i)[j] == s[j]);
        } else {
            assert(s.remove(i)[j] == s[j + 1]);
        }
    }
}

/// Relies on `Vec::shrink_to_fit`: it releases spare capacity and leaves
/// the elements as they were.
#[verifier::external_body]
pub(crate) fn shrink_to_fit<T>(v: &mut Vec<T>)
    ensures
        final(v)@ == old(v)@,
{
    v.shrink_to_fit()
}

/// The simulated world: its bounds, the tick counter and the population in
/// insertion order.
pub struct World {
    pub current_turn: u64,
    pub height: i64,
    pub width: i64,
    pub particles: Vec<Particle>,
}

impl Particle {
    /// A fresh particle for `world`, with its horizontal offset, upward speed
    /// and downward acceleration drawn uniformly at random.
    pub fn new(world: &World) -> (p: Particle)
        requires
            world.wf(),
        ensures
            p.wf(),
            p.is_spawn(world.width as int, world.height as int),
    {
        let x = uniform_inclusive(0, world.width);
        let y_velocity = uniform_inclusive(-2 * UNIT, -1);
        let y_acceleration = uniform_inclusive(0, UNIT * 15 / 100 - 1);
        Particle::spawn(x, world.height, y_velocity, y_acceleration)
    }
}

impl World {
    pub open spec fn wf(self) -> bool {
        &&& 0 <= self.width
        &&& all_wf(self.particles@)
    }

    /// An empty world of the given bounds at turn zero.
    pub fn new(width: i64, height: i64) -> (w: World)
        requires
            0 <= width,
        ensures
            w.wf(),
            w.width == width,
            w.height == height,
            w.current_turn == 0,
            w.particles@.len() == 0,
    {
        World { width, height, particles: Vec::new(), current_turn: 0 }
    }

    /// Index of the particle that the next removal evicts, for a non-empty
    /// population.
    pub fn eviction_index(&self) -> (r: usize)
        requires
            self.particles@.len() > 0,
        ensures
            r as int == eviction_index(self.particles@),
    {
        let n = self.particles.len();
        let mut i: usize = 0;
        while i < n
            invariant
                n == self.particles@.len(),
                0 <= i <= n,
                forall|j: int| 0 <= j < i ==> !(#[trigger] self.particles@[j]).is_expired(),
            decreases n - i,
        {
            if self.particles[i].color.a < crate::particle::EXPIRED_ALPHA {
                proof {
                    let s = self.particles@;
                    assert(first_expired(s, i as int));
                    let c = choose|k: int| first_expired(s, k);
                    lemma_first_expired_unique(s, i as int, c);
                }
                return i;
            }
            i += 1;
        }
        proof {
            let s = self.particles@;
            assert(!exists|k: int| first_expired(s, k)) by {
                assert forall|k: int| !first_expired(s, k) by {
                    if 0 <= k < s.len() {
                        assert(!s[k].is_expired());
                    }
                }
            }
        }
        0
    }

    /// Appends `|n|` freshly spawned particles.
    pub fn add_particles(&mut self, n: i32)
        requires
            old(self).wf(),
        ensures
            final(self).wf(),
            final(self).width == old(self).width,
            final(self).height == old(self).height,
            final(self).current_turn == old(self).current_turn,
            churned(
                old(self).particles@,
                if n < 0 { -(n as int) } else { n as int },
                final(self).particles@,
                old(self).width as int,
                old(self).height as int,
            ),
    {
        let count: u32 = if n < 0 { (0 - (n as i64)) as u32 } else { n as u32 };
        let ghost before = self.particles@;
        let mut k: u32 = 0;
        while k < count
            invariant
                self.wf(),
                self.width == old(self).width,
                self.height == old(self).height,
                self.current_turn == old(self).current_turn,
                before == old(self).particles@,
                0 <= k <= count,
                self.particles@.len() == before.len() + k,
                self.particles@.subrange(0, before.len() as int) == before,
                forall|i: int| before.len() <= i < self.particles@.len()
                    ==> #[trigger] self.particles@[i].is_spawn(self.width as int, self.height as int),
            decreases count - k,
        {
            let p = Particle::new(self);
            self.particles.push(p);
            proof {
                assert(self.particles@.subrange(0, before.len() as int) =~= before);
            }
            k += 1;
        }
        proof {
            if count == 0 {
                assert(self.particles@ =~= self.particles@.subrange(0, before.len() as int));
                assert(evict(before, 0) == before);
            }
        }
    }

    /// Removes `|n|` particles one at a time: each removal takes the first
    /// expired particle, or the oldest when none has expired, and does
    /// nothing once the population is empty.
    pub fn remove_particles(&mut self, n: i32)
        requires
            old(self).wf(),
        ensures
            final(self).wf(),
            final(self).width == old(self).width,
            final(self).height == old(self).height,
            final(self).current_turn == old(self).current_turn,
            final(self).particles@ == evict(
                old(self).particles@,
                if n < 0 { (-(n as int)) as nat } else { n as nat },
            ),
    {
        let count: u32 = if n < 0 { (0 - (n as i64)) as u32 } else { n as u32 };
        let mut k: u32 = 0;
        while k < count
            invariant
                self.wf(),
                self.width == old(self).width,
                self.height == old(self).height,
                self.current_turn == old(self).current_turn,
                0 <= k <= count,
                self.particles@ == evict(old(self).particles@, k as nat),
            decreases count - k,
        {
            if self.particles.len() > 0 {
                let i = self.eviction_index();
                proof {
                    lemma_evict_one_len(self.particles@);
                    lemma_remove_keeps_wf(self.particles@, i as int);
                }
                self.particles.remove(i);
            }
            k += 1;
        }
    }

    /// Grows the population by `delta` fresh spawns when `delta` is positive,
    /// shrinks it by `-delta` removals when negative, and leaves it as it is
    /// when zero.
    pub fn apply_churn(&mut self, delta: i32)
        requires
            old(self).wf(),
        ensures
            final(self).wf(),
            final(self).width == old(self).width,
            final(self).height == old(self).height,
            final(self).current_turn == old(self).current_turn,
            churned(
                old(self).particles@,
                delta as int,
                final(self).particles@,
                old(self).width as int,
                old(self).height as int,
            ),
            final(self).particles@.len() == churned_len(old(self).particles@.len() as int, delta as int),
    {
        if delta > 0 {
            self.add_particles(delta);
        } else {
            self.remove_particles(delta);
        }
        proof {
            if delta <= 0 {
                lemma_evict_len(old(self).particles@, (-delta) as nat);
            }
        }
    }

    /// Advances every particle by one tick of physics, in order.
    pub fn advance(&mut self)
        requires
            old(self).wf(),
        ensures
            final(self).wf(),
            final(self).width == old(self).width,
            final(self).height == old(self).height,
            final(self).current_turn == old(self).current_turn,
            final(self).particles@ == old(self).particles@.map_values(|p: Particle| p.stepped()),
    {
        let n = self.particles.len();
        let mut i: usize = 0;
        while i < n
            invariant
                self.wf(),
                self.width == old(self).width,
                self.height == old(self).height,
                self.current_turn == old(self).current_turn,
                n == self.particles@.len(),
                n == old(self).particles@.len(),
                0 <= i <= n,
                forall|j: int| 0 <= j < i ==> #[trigger] self.particles@[j] == old(self).particles@[j].stepped(),
                forall|j: int| i <= j < n ==> #[trigger] self.particles@[j] == old(self).particles@[j],
            decreases n - i,
        {
            let mut p = self.particles[i];
            p.update();
            self.particles.set(i, p);
            i += 1;
        }
        proof {
            assert(self.particles@ =~= old(self).particles@.map_values(|p: Particle| p.stepped()));
        }
    }

    /// One tick with a churn of `delta`: the population grows or shrinks,
    /// its storage is trimmed to fit, every survivor advances and the turn
    /// counter goes up by one.
    pub fn update_with(&mut self, delta: i32)
        requires
            old(self).wf(),
            old(self).current_turn < u64::MAX,
        ensures
            final(self).wf(),
            final(self).width == old(self).width,
            final(self).height == old(self).height,
            final(self).current_turn == old(self).current_turn + 1,
            final(self).particles@.len() == churned_len(old(self).particles@.len() as int, delta as int),
            exists|c: Seq<Particle>| {
                &&& churned(old(self).particles@, delta as int, c, old(self).width as int, old(self).height as int)
                &&& final(self).particles@ == c.map_values(|p: Particle| p.stepped())
            },
    {
        self.apply_churn(delta);
        let ghost c = self.particles@;
        shrink_to_fit(&mut self.particles);
        self.advance();
        self.current_turn = self.current_turn + 1;
        proof {
            assert(churned(old(self).particles@, delta as int, c, old(self).width as int, old(self).height as int));
        }
    }

    /// One tick with a churn drawn uniformly from `-3..=3`.
    pub fn update(&mut self)
        requires
            old(self).wf(),
            old(self).current_turn < u64::MAX,
        ensures
            final(self).wf(),
            final(self).width == old(self).width,
            final(self).height == old(self).height,
            final(self).current_turn == old(self).current_turn + 1,
            exists|delta: int| {
                &&& -3 <= delta <= 3
                &&& final(self).particles@.len() == churned_len(old(self).particles@.len() as int, delta)
                &&& exists|c: Seq<Particle>| {
                    &&& churned(old(self).particles@, delta, c, old(self).width as int, old(self).height as int)
                    &&& final(self).particles@ == c.map_values(|p: Particle| p.stepped())
                }
            },
    {
        let delta = uniform_inclusive(-3, 3) as i32;
        self.update_with(delta);
    }
}

} // verus!
