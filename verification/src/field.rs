//! The set of particles on screen.

use crate::particle::Particle;
use crate::random::{is_alphanumeric, random_column, random_glyph};
use rand::rngs::StdRng;
use vstd::prelude::*;

verus! {

/// The predicate that `prune` keeps: the particle's row is on a screen of the
/// given height.
pub open spec fn on_screen(height: u16) -> spec_fn(Particle) -> bool {
    |p: Particle| p.y < height
}

/// Every particle of `after` is the one at the same place in `before`, one
/// frame later.
pub open spec fn advanced(
    before: Seq<Particle>,
    after: Seq<Particle>,
    width: u16,
    height: u16,
) -> bool {
    &&& after.len() == before.len()
    &&& forall|i: int| 0 <= i < before.len() ==> (#[trigger] after[i]).is_step_of(before[i], width, height)
}

/// `after` is `before` with exactly one particle added at the end: on row 0,
/// in a column of the terminal, showing a letter or a digit.
pub open spec fn spawned(before: Seq<Particle>, after: Seq<Particle>, width: u16) -> bool {
    &&& after.len() == before.len() + 1
    &&& after.drop_last() == before
    &&& after.last().y == 0
    &&& after.last().x < width
    &&& is_alphanumeric(after.last().glyph)
}

/// Some particle leaves the bottom edge with its next step.
pub open spec fn some_fall_off(particles: Seq<Particle>, height: u16) -> bool {
    exists|i: int| 0 <= i < particles.len() && (#[trigger] particles[i]).falls_off(height)
}

/// Every row lies on a screen of the given height.
pub open spec fn all_on_screen(particles: Seq<Particle>, height: u16) -> bool {
    forall|i: int| 0 <= i < particles.len() ==> (#[trigger] particles[i]).y < height
}

/// Every column lies on a terminal of the given width.
pub open spec fn all_in_columns(particles: Seq<Particle>, width: u16) -> bool {
    forall|i: int| 0 <= i < particles.len() ==> (#[trigger] particles[i]).x < width
}

/// The particles in flight, oldest first.
pub struct ParticleField {
    particles: Vec<Particle>,
}

impl View for ParticleField {
    type V = Seq<Particle>;

    closed spec fn view(&self) -> Seq<Particle> {
        self.particles@
    }
}

impl ParticleField {
    /// An empty field.
    pub fn new() -> (field: ParticleField)
        ensures
            field@ == Seq::<Particle>::empty(),
    {
        ParticleField { particles: Vec::new() }
    }

    /// How many particles are in flight.
    pub fn len(&self) -> (n: usize)
        ensures
            n == self@.len(),
    {
        self.particles.len()
    }

    /// The `i`-th particle, oldest first.
    pub fn get(&self, i: usize) -> (p: Particle)
        requires
            i < self@.len(),
        ensures
            p == self@[i as int],
    {
        self.particles[i]
    }

    /// Adds `p` as the youngest particle.
    pub fn insert(&mut self, p: Particle)
        ensures
            final(self)@ == old(self)@.push(p),
    {
        self.particles.push(p);
    }

    /// Moves every particle one frame on: one row down, or, past the bottom
    /// edge, back to row 0 in a freshly drawn column. On a screen with at least
    /// one row every particle ends on the screen. A column can only be drawn
    /// on a terminal with at least one, so the width must be positive where a
    /// particle wraps.
    pub fn advance_all(&mut self, width: u16, height: u16, rng: &mut StdRng)
        requires
            some_fall_off(old(self)@, height) ==> width > 0,
        ensures
            advanced(old(self)@, final(self)@, width, height),
            height > 0 ==> all_on_screen(final(self)@, height),
    {
        let n: usize = self.particles.len();
        let mut i: usize = 0;
        while i < n
            invariant
                some_fall_off(old(self)@, height) ==> width > 0,
                i <= n,
                n == self.particles@.len(),
                n == old(self)@.len(),
                forall|j: int| 0 <= j < i ==> (#[trigger] self.particles@[j]).is_step_of(old(self)@[j], width, height),
                forall|j: int| i <= j < n ==> self.particles@[j] == old(self)@[j],
            decreases n - i,
        {
            let mut p: Particle = self.particles[i];
            assert(p == old(self)@[i as int]);
            p.update(width, height, rng);
            self.particles.set(i, p);
            i = i + 1;
        }
    }

    /// Adds exactly one particle, whatever the field holds: on row 0, in a
    /// column, a glyph and a colour drawn from `rng`.
    pub fn spawn(&mut self, width: u16, rng: &mut StdRng)
        requires
            width > 0,
        ensures
            spawned(old(self)@, final(self)@, width),
    {
        let x: u16 = random_column(rng, width);
        let glyph: char = random_glyph(rng);
        let p: Particle = Particle::new(x, 0, glyph, rng);
        self.particles.push(p);
        assert(self.particles@.drop_last() =~= old(self)@);
    }

    /// Removes the particles whose row is at or past `height`; the others keep
    /// their order. Nothing changes when every row is on the screen.
    pub fn prune(&mut self, height: u16)
        ensures
            final(self)@ == old(self)@.filter(on_screen(height)),
            all_on_screen(final(self)@, height),
            all_on_screen(old(self)@, height) ==> final(self)@ == old(self)@,
    {
        let n: usize = self.particles.len();
        let mut kept: Vec<Particle> = Vec::new();
        let mut i: usize = 0;
        proof {
            reveal(Seq::filter);
        }
        while i < n
            invariant
                i <= n,
                n == self.particles@.len(),
                self.particles@ == old(self)@,
                kept@ == old(self)@.take(i as int).filter(on_screen(height)),
            decreases n - i,
        {
            let p: Particle = self.particles[i];
            proof {
                let seen = old(self)@.take(i as int);
                assert(old(self)@.take(i + 1) =~= seen.push(p));
                seen.lemma_filter_push(p, on_screen(height));
            }
            if p.y < height {
                kept.push(p);
            }
            i = i + 1;
        }
        proof {
            assert(old(self)@.take(n as int) =~= old(self)@);
            lemma_pruned_is_on_screen(old(self)@, height);
            if all_on_screen(old(self)@, height) {
                lemma_prune_keeps_all(old(self)@, height);
            }
        }
        self.particles = kept;
    }

    /// Empties the field.
    pub fn clear(&mut self)
        ensures
            final(self)@ == Seq::<Particle>::empty(),
    {
        self.particles.clear();
    }
}

/// What pruning leaves is on the screen.
pub proof fn lemma_pruned_is_on_screen(particles: Seq<Particle>, height: u16)
    ensures
        all_on_screen(particles.filter(on_screen(height)), height),
{
    let kept = particles.filter(on_screen(height));
    assert forall|i: int| 0 <= i < kept.len() implies (#[trigger] kept[i]).y < height by {
        particles.lemma_filter_pred(on_screen(height), i);
    }
}

/// Pruning moves no particle to another column.
pub proof fn lemma_pruned_stays_in_columns(particles: Seq<Particle>, width: u16, height: u16)
    requires
        all_in_columns(particles, width),
    ensures
        all_in_columns(particles.filter(on_screen(height)), width),
    decreases particles.len(),
{
    if particles.len() > 0 {
        let rest = particles.drop_last();
        lemma_pruned_stays_in_columns(rest, width, height);
        assert(rest.push(particles.last()) =~= particles);
        rest.lemma_filter_push(particles.last(), on_screen(height));
    } else {
        reveal(Seq::filter);
    }
}

/// Particles that were in the columns of the terminal are there after they
/// have moved one frame on: a wrap draws a column of the terminal.
pub proof fn lemma_advance_stays_in_columns(
    before: Seq<Particle>,
    after: Seq<Particle>,
    width: u16,
    height: u16,
)
    requires
        advanced(before, after, width, height),
        all_in_columns(before, width),
    ensures
        all_in_columns(after, width),
{
    assert forall|i: int| 0 <= i < after.len() implies (#[trigger] after[i]).x < width by {
        assert(after[i].is_step_of(before[i], width, height));
        assert(before[i].x < width);
    }
}

/// Pruning is a no-op on a field whose rows are all on the screen.
pub proof fn lemma_prune_keeps_all(particles: Seq<Particle>, height: u16)
    requires
        all_on_screen(particles, height),
    ensures
        particles.filter(on_screen(height)) == particles,
    decreases particles.len(),
{
    if particles.len() > 0 {
        let rest = particles.drop_last();
        lemma_prune_keeps_all(rest, height);
        assert(rest.push(particles.last()) =~= particles);
        rest.lemma_filter_push(particles.last(), on_screen(height));
    } else {
        reveal(Seq::filter);
    }
}

/// After every particle has moved one frame on a screen with at least one
/// row, all rows are on the screen.
pub proof fn lemma_advance_stays_on_screen(
    before: Seq<Particle>,
    after: Seq<Particle>,
    width: u16,
    height: u16,
)
    requires
        advanced(before, after, width, height),
        height > 0,
    ensures
        all_on_screen(after, height),
{
    assert forall|i: int| 0 <= i < after.len() implies (#[trigger] after[i]).y < height by {
        assert(after[i].is_step_of(before[i], width, height));
    }
}

/// Advancing and then pruning with the same height removes nothing: a
/// particle that has just wrapped to row 0 is kept.
pub proof fn lemma_advance_then_prune(
    before: Seq<Particle>,
    after: Seq<Particle>,
    width: u16,
    height: u16,
)
    requires
        advanced(before, after, width, height),
        height > 0,
    ensures
        after.filter(on_screen(height)) == after,
{
    lemma_advance_stays_on_screen(before, after, width, height);
    lemma_prune_keeps_all(after, height);
}

} // verus!
