//! One falling glyph.

use crate::random::{generate_random_color, random_column};
use rand::rngs::StdRng;
use vstd::arithmetic::div_mod::{lemma_fundamental_div_mod, lemma_fundamental_div_mod_converse};
use vstd::prelude::*;

verus! {

/// A falling character: where it is and how it looks.
#[derive(Clone, Copy, Debug, PartialEq, Eq, Structural)]
pub struct Particle {
    /// Column, counted from the left edge.
    pub x: u16,
    /// Row, counted from the top edge.
    pub y: u16,
    /// Index into the 256-colour palette.
    pub color: u8,
    /// The character drawn.
    pub glyph: char,
}

/// The row below `row` on a screen of `height` rows, or row 0 if there is
/// none.
pub open spec fn next_row(row: u16, height: u16) -> u16 {
    if row + 1 >= height {
        0
    } else {
        (row + 1) as u16
    }
}

/// The row that a particle on `row` has reached `frames` frames later.
pub open spec fn row_after(row: u16, height: u16, frames: nat) -> u16
    decreases frames,
{
    if frames == 0 {
        row
    } else {
        next_row(row_after(row, height, (frames - 1) as nat), height)
    }
}

impl Particle {
    /// Whether one more step takes the particle past the bottom row.
    pub open spec fn falls_off(self, height: u16) -> bool {
        self.y + 1 >= height
    }

    /// The particle one frame later: one row down, or, past the bottom edge,
    /// back on row 0 in `fresh_column`. Colour and glyph never change.
    pub open spec fn stepped(self, height: u16, fresh_column: u16) -> Particle {
        if self.falls_off(height) {
            Particle { x: fresh_column, y: 0, color: self.color, glyph: self.glyph }
        } else {
            Particle { x: self.x, y: (self.y + 1) as u16, color: self.color, glyph: self.glyph }
        }
    }

    /// `self` is `before` one frame later on a terminal of the given size,
    /// whatever column was drawn for a wrap.
    pub open spec fn is_step_of(self, before: Particle, width: u16, height: u16) -> bool {
        &&& self.color == before.color
        &&& self.glyph == before.glyph
        &&& before.falls_off(height) ==> self.y == 0 && self.x < width
        &&& !before.falls_off(height) ==> self.y == before.y + 1 && self.x == before.x
    }

    /// A particle at the given place with the given looks.
    pub fn with_color(x: u16, y: u16, color: u8, glyph: char) -> (p: Particle)
        ensures
            p == (Particle { x, y, color, glyph }),
    {
        Particle { x, y, color, glyph }
    }

    /// A particle at the given place showing `glyph`, in a colour drawn from `rng`.
    pub fn new(x: u16, y: u16, glyph: char, rng: &mut StdRng) -> (p: Particle)
        ensures
            p.x == x,
            p.y == y,
            p.glyph == glyph,
    {
        let color: u8 = generate_random_color(rng);
        Particle::with_color(x, y, color, glyph)
    }

    /// Moves the particle one frame on, wrapping into `fresh_column` when it
    /// leaves the bottom edge.
    pub fn update_with(&mut self, terminal_height: u16, fresh_column: u16)
        ensures
            *final(self) == old(self).stepped(terminal_height, fresh_column),
    {
        if self.y >= terminal_height || self.y + 1 >= terminal_height {
            self.y = 0;
            self.x = fresh_column;
        } else {
            self.y = self.y + 1;
        }
    }

    /// Moves the particle one frame on. A particle that leaves the bottom edge
    /// starts again on row 0, in a column drawn from `rng`; `rng` is not touched
    /// otherwise, and the width does not matter then.
    pub fn update(&mut self, terminal_width: u16, terminal_height: u16, rng: &mut StdRng)
        requires
            old(self).falls_off(terminal_height) ==> terminal_width > 0,
        ensures
            final(self).is_step_of(*old(self), terminal_width, terminal_height),
            terminal_height > 0 ==> final(self).y < terminal_height,
    {
        let fresh_column: u16 = if self.y >= terminal_height || self.y + 1 >= terminal_height {
            random_column(rng, terminal_width)
        } else {
            self.x
        };
        self.update_with(terminal_height, fresh_column);
    }
}

/// A step with a column inside the terminal is a step in the sense of
/// `is_step_of`.
pub proof fn lemma_stepped_is_step(p: Particle, width: u16, height: u16, fresh_column: u16)
    requires
        fresh_column < width,
    ensures
        p.stepped(height, fresh_column).is_step_of(p, width, height),
{
}

/// Whatever column is drawn, a step takes a particle to the next row.
pub proof fn lemma_step_row(before: Particle, after: Particle, width: u16, height: u16)
    requires
        after.is_step_of(before, width, height),
    ensures
        after.y == next_row(before.y, height),
{
}

/// A particle on the screen falls row by row and starts again at the top:
/// after `frames` frames it is on row `(row + frames) mod height`.
pub proof fn lemma_row_after(row: u16, height: u16, frames: nat)
    requires
        row < height,
    ensures
        row_after(row, height, frames) == (row + frames) % (height as int),
    decreases frames,
{
    let h = height as int;
    if frames == 0 {
        lemma_fundamental_div_mod_converse(row as int, h, 0, row as int);
    } else {
        lemma_row_after(row, height, (frames - 1) as nat);
        let x = row + frames - 1;
        let q = x / h;
        let r = x % h;
        lemma_fundamental_div_mod(x, h);
        assert(h * q == q * h) by (nonlinear_arith);
        if r + 1 >= h {
            assert((q + 1) * h + 0 == x + 1) by (nonlinear_arith)
                requires
                    x == q * h + r,
                    r + 1 == h,
            ;
            lemma_fundamental_div_mod_converse(x + 1, h, q + 1, 0);
        } else {
            lemma_fundamental_div_mod_converse(x + 1, h, q, r + 1);
        }
    }
}

} // verus!
