//! The render loop: what one frame draws and how the field changes with it.
//!
//! The loop itself runs in the caller, which owns the terminal. Once per
//! iteration it reads the cancellation flag and the terminal size and calls
//! `RenderLoop::tick`; it performs the operations that come back, in order, and
//! then sleeps for `FRAME_PERIOD_MILLIS`.

use crate::clock::local_timestamp;
use crate::field::{
    advanced, all_in_columns, all_on_screen, lemma_advance_stays_in_columns,
    lemma_advance_stays_on_screen, lemma_prune_keeps_all, lemma_pruned_is_on_screen,
    lemma_pruned_stays_in_columns, on_screen, spawned, ParticleField,
};
use crate::particle::Particle;
use crate::random::is_alphanumeric;
use crate::terminal::{flush_count, op_views, Color, OpView, TerminalOp};
use crate::text::{byte_len, text_cells};
use rand::rngs::StdRng;
use vstd::prelude::*;
use vstd::utf8::{is_ascii_chars, is_ascii_chars_encode_utf8};

verus! {

/// The pause between two frames, in milliseconds.
pub const FRAME_PERIOD_MILLIS: u64 = 30;

/// The size of the terminal in character cells, as sampled for one frame.
#[derive(Clone, Copy, Debug, PartialEq, Eq, Structural)]
pub struct TerminalDimensions {
    pub width: u16,
    pub height: u16,
}

/// The two states of the loop. `Stopped` is final.
#[derive(Clone, Copy, Debug, PartialEq, Eq, Structural)]
pub enum LoopState {
    Running,
    Stopped,
}

/// The static second line of the header.
pub open spec fn help_text() -> Seq<char> {
    "Press 'q' to quit"@
}

/// Both header lines can be centred on a terminal of this width: half of each
/// text fits left of the middle column.
pub open spec fn header_fits(timestamp: Seq<char>, width: u16) -> bool {
    &&& text_cells(timestamp) / 2 <= width / 2
    &&& text_cells(help_text()) / 2 <= width / 2
}

/// The column where a centred text starts.
pub open spec fn centered_column(text: Seq<char>, width: u16) -> int {
    width / 2 - text_cells(text) / 2
}

/// One centred line of the header, in the neutral colour.
pub open spec fn line_ops(text: Seq<char>, width: u16, row: u16) -> Seq<OpView> {
    seq![
        OpView::MoveTo { column: centered_column(text, width) as u16, row },
        OpView::SetForeground(Color::White),
        OpView::PrintText(text),
    ]
}

/// The start of every frame: clear the screen, then the timestamp on row 0 and
/// the help text on row 1.
pub open spec fn header_ops(timestamp: Seq<char>, width: u16) -> Seq<OpView> {
    seq![OpView::ClearAll] + line_ops(timestamp, width, 0) + line_ops(help_text(), width, 1)
}

/// One particle at its place, in its colour.
pub open spec fn glyph_ops(p: Particle) -> Seq<OpView> {
    seq![
        OpView::MoveTo { column: p.x, row: p.y },
        OpView::SetForeground(Color::Ansi(p.color)),
        OpView::PrintGlyph(p.glyph),
    ]
}

/// All particles, oldest first.
pub open spec fn particle_ops(particles: Seq<Particle>) -> Seq<OpView>
    decreases particles.len(),
{
    if particles.len() == 0 {
        Seq::empty()
    } else {
        particle_ops(particles.drop_last()) + glyph_ops(particles.last())
    }
}

/// Everything one frame sends to the terminal, in order: the header, the
/// particles at their new places, and one flush at the very end.
pub open spec fn frame_ops(timestamp: Seq<char>, width: u16, moved: Seq<Particle>) -> Seq<OpView> {
    header_ops(timestamp, width) + particle_ops(moved) + seq![OpView::Flush]
}

/// The state the render loop carries from frame to frame.
pub struct RenderLoop {
    state: LoopState,
    dimensions: TerminalDimensions,
    field: ParticleField,
}

/// What one iteration of the loop came to.
#[derive(Clone, Debug, PartialEq, Eq)]
pub enum FrameOutcome {
    /// The loop has stopped: nothing is drawn, now or later.
    Stopped,
    /// Perform these operations in order, then sleep one frame period.
    Drawn(Vec<TerminalOp>),
    /// The terminal is too narrow to centre the header. Nothing was drawn; the
    /// size of the terminal has been taken note of, as at the start of every
    /// frame.
    HeaderTooWide,
}

impl RenderLoop {
    pub closed spec fn spec_state(&self) -> LoopState {
        self.state
    }

    pub closed spec fn spec_dimensions(&self) -> TerminalDimensions {
        self.dimensions
    }

    /// The particles in flight, oldest first.
    pub closed spec fn particles(&self) -> Seq<Particle> {
        self.field@
    }

    /// `self` and `other` are in the same state, for the same terminal size,
    /// with the same particles.
    pub open spec fn same_as(&self, other: RenderLoop) -> bool {
        &&& self.spec_state() == other.spec_state()
        &&& self.spec_dimensions() == other.spec_dimensions()
        &&& self.particles() == other.particles()
    }

    /// Every particle lies inside the terminal that the loop last drew on.
    pub open spec fn in_bounds(&self) -> bool {
        &&& all_in_columns(self.particles(), self.spec_dimensions().width)
        &&& all_on_screen(self.particles(), self.spec_dimensions().height)
    }

    /// `after` is the running loop `self` once the size of the terminal has
    /// been taken note of and nothing else has happened: the field is empty
    /// if the size has changed and as it was otherwise.
    pub open spec fn is_resync(&self, after: RenderLoop, width: u16, height: u16) -> bool {
        &&& after.spec_state() is Running
        &&& after.spec_dimensions() == (TerminalDimensions { width, height })
        &&& after.particles() == self.carried_over(width, height)
    }

    /// `particles` is what a field holds after the frame of a change of
    /// size: the one particle spawned in that frame, on row 0 in a column of
    /// the terminal, or nothing on a screen without rows.
    pub open spec fn is_fresh_field(particles: Seq<Particle>, width: u16, height: u16) -> bool {
        if height > 0 {
            &&& particles.len() == 1
            &&& particles[0].y == 0
            &&& particles[0].x < width
            &&& is_alphanumeric(particles[0].glyph)
        } else {
            particles.len() == 0
        }
    }

    /// The particles a frame starts from on a terminal of the given size:
    /// none after a change of size, all of them otherwise.
    pub open spec fn carried_over(&self, width: u16, height: u16) -> Seq<Particle> {
        if self.spec_dimensions() == (TerminalDimensions { width, height }) {
            self.particles()
        } else {
            Seq::empty()
        }
    }

    /// `after` and `ops` are what one frame makes of the running loop
    /// `self`: the field is emptied if the size has changed, every particle
    /// moves one step (`moved`) and is drawn, one particle is spawned
    /// (`grown`), and what is off the screen is pruned.
    pub open spec fn frame_step(
        &self,
        after: RenderLoop,
        ops: Seq<OpView>,
        timestamp: Seq<char>,
        width: u16,
        height: u16,
        moved: Seq<Particle>,
        grown: Seq<Particle>,
    ) -> bool {
        &&& after.spec_state() is Running
        &&& after.spec_dimensions() == (TerminalDimensions { width, height })
        &&& advanced(self.carried_over(width, height), moved, width, height)
        &&& spawned(moved, grown, width)
        &&& after.particles() == grown.filter(on_screen(height))
        &&& ops == frame_ops(timestamp, width, moved)
    }

    /// `after` and `ops` are what one frame can make of the running loop
    /// `self`, for some outcome of the random draws.
    pub open spec fn is_frame(
        &self,
        after: RenderLoop,
        ops: Seq<OpView>,
        timestamp: Seq<char>,
        width: u16,
        height: u16,
    ) -> bool {
        exists|moved: Seq<Particle>, grown: Seq<Particle>| #[trigger]
            self.frame_step(after, ops, timestamp, width, height, moved, grown)
    }

    /// A running loop with an empty field, for a terminal of the given size.
    pub fn new(width: u16, height: u16) -> (render_loop: RenderLoop)
        ensures
            render_loop.spec_state() is Running,
            render_loop.spec_dimensions() == (TerminalDimensions { width, height }),
            render_loop.particles() == Seq::<Particle>::empty(),
            render_loop.in_bounds(),
    {
        RenderLoop {
            state: LoopState::Running,
            dimensions: TerminalDimensions { width, height },
            field: ParticleField::new(),
        }
    }

    #[verifier::when_used_as_spec(spec_state)]
    pub fn state(&self) -> (state: LoopState)
        ensures
            state == self.spec_state(),
    {
        self.state
    }

    #[verifier::when_used_as_spec(spec_dimensions)]
    pub fn dimensions(&self) -> (dimensions: TerminalDimensions)
        ensures
            dimensions == self.spec_dimensions(),
    {
        self.dimensions
    }

    /// The field, for reading.
    pub fn field(&self) -> (field: &ParticleField)
        ensures
            field@ == self.particles(),
    {
        &self.field
    }

    /// Takes note of the cancellation flag as read at the top of an iteration.
    /// The loop stops when the flag reads `false` and never runs again; the
    /// result says whether the loop is still running.
    pub fn observe(&mut self, running: bool) -> (goes_on: bool)
        ensures
            goes_on == (old(self).spec_state() is Running && running),
            final(self).spec_state() == if goes_on {
                LoopState::Running
            } else {
                LoopState::Stopped
            },
            final(self).spec_dimensions() == old(self).spec_dimensions(),
            final(self).particles() == old(self).particles(),
            old(self).in_bounds() ==> final(self).in_bounds(),
    {
        if !running {
            self.state = LoopState::Stopped;
        }
        match self.state {
            LoopState::Running => true,
            LoopState::Stopped => false,
        }
    }

    /// Takes note of the terminal size as queried for this frame. A change
    /// empties the field at once: no particle is carried over to the new size.
    pub fn sync_dimensions(&mut self, width: u16, height: u16) -> (changed: bool)
        ensures
            changed == (old(self).spec_dimensions() != (TerminalDimensions { width, height })),
            final(self).spec_dimensions() == (TerminalDimensions { width, height }),
            final(self).particles() == old(self).carried_over(width, height),
            changed ==> final(self).particles() == Seq::<Particle>::empty(),
            final(self).spec_state() == old(self).spec_state(),
            old(self).in_bounds() ==> final(self).in_bounds(),
    {
        if width != self.dimensions.width || height != self.dimensions.height {
            self.dimensions = TerminalDimensions { width, height };
            self.field.clear();
            true
        } else {
            false
        }
    }

    /// One frame of a running loop, for the given header timestamp and
    /// terminal size. A stopped loop draws nothing and does not change.
    pub fn frame(&mut self, timestamp: &str, width: u16, height: u16, rng: &mut StdRng) -> (ops: Vec<
        TerminalOp,
    >)
        requires
            old(self).spec_state() is Running ==> header_fits(timestamp@, width),
        ensures
            old(self).spec_state() is Stopped ==> ops@.len() == 0 && final(self).same_as(*old(self)),
            old(self).spec_state() is Running ==> old(self).is_frame(
                *final(self),
                op_views(ops@),
                timestamp@,
                width,
                height,
            ),
            old(self).spec_state() is Running && old(self).spec_dimensions() != (TerminalDimensions {
                width,
                height,
            }) ==> RenderLoop::is_fresh_field(final(self).particles(), width, height),
            old(self).in_bounds() ==> final(self).in_bounds(),
    {
        let mut ops: Vec<TerminalOp> = Vec::new();
        match self.state {
            LoopState::Stopped => {
                return ops;
            },
            LoopState::Running => {},
        }
        proof {
            lemma_help_text_cells();
        }
        self.sync_dimensions(width, height);
        ops.push(TerminalOp::ClearAll);
        assert(op_views(ops@) =~= seq![OpView::ClearAll]);
        push_centered_line(&mut ops, timestamp, width, 0);
        push_centered_line(&mut ops, "Press 'q' to quit", width, 1);
        assert(op_views(ops@) =~= header_ops(timestamp@, width));
        self.field.advance_all(width, height, rng);
        let ghost moved = self.field@;
        let n: usize = self.field.len();
        let mut i: usize = 0;
        while i < n
            invariant
                i <= n,
                n == moved.len(),
                self.field@ == moved,
                op_views(ops@) == header_ops(timestamp@, width) + particle_ops(moved.take(i as int)),
            decreases n - i,
        {
            let p: Particle = self.field.get(i);
            proof {
                let next = moved.take(i + 1);
                assert(next.drop_last() =~= moved.take(i as int));
                assert(next.last() == p);
            }
            let ghost before = op_views(ops@);
            ops.push(TerminalOp::MoveTo { column: p.x, row: p.y });
            ops.push(TerminalOp::SetForeground(Color::Ansi(p.color)));
            ops.push(TerminalOp::PrintGlyph(p.glyph));
            assert(op_views(ops@) =~= before + glyph_ops(p));
            i = i + 1;
        }
        proof {
            assert(moved.take(n as int) =~= moved);
        }
        self.field.spawn(width, rng);
        let ghost grown = self.field@;
        self.field.prune(height);
        let ghost before = op_views(ops@);
        ops.push(TerminalOp::Flush);
        proof {
            assert(op_views(ops@) =~= before + seq![OpView::Flush]);
            assert(old(self).frame_step(*self, op_views(ops@), timestamp@, width, height, moved, grown));
            if old(self).in_bounds() {
                lemma_frame_keeps_bounds(*old(self), *self, op_views(ops@), timestamp@, width, height);
            }
            if old(self).spec_dimensions() != (TerminalDimensions { width, height }) {
                lemma_frame_after_resize(*old(self), *self, op_views(ops@), timestamp@, width, height);
            }
        }
        ops
    }

    /// One iteration of the loop with the header timestamp given: takes note
    /// of the cancellation flag, and, if the loop goes on, of the size of the
    /// terminal, and draws one frame or reports that the header does not fit.
    ///
    /// Once the flag has been seen `false` the outcome is `Stopped`, on this
    /// call and on every later one, and no operation is handed out. A running
    /// loop draws exactly when both header lines can be centred on the
    /// terminal. When they cannot, nothing is drawn, but a change of size has
    /// emptied the field all the same.
    pub fn tick_at(
        &mut self,
        running: bool,
        timestamp: &str,
        width: u16,
        height: u16,
        rng: &mut StdRng,
    ) -> (outcome: FrameOutcome)
        ensures
            !(old(self).spec_state() is Running && running) ==> {
                &&& outcome is Stopped
                &&& final(self).spec_state() is Stopped
                &&& final(self).spec_dimensions() == old(self).spec_dimensions()
                &&& final(self).particles() == old(self).particles()
            },
            old(self).spec_state() is Running && running && header_fits(timestamp@, width) ==> {
                &&& outcome is Drawn
                &&& old(self).is_frame(
                    *final(self),
                    op_views(outcome->Drawn_0@),
                    timestamp@,
                    width,
                    height,
                )
            },
            old(self).spec_state() is Running && running && !header_fits(timestamp@, width) ==> {
                &&& outcome is HeaderTooWide
                &&& old(self).is_resync(*final(self), width, height)
            },
            outcome is Drawn && old(self).spec_dimensions() != (TerminalDimensions { width, height })
                ==> RenderLoop::is_fresh_field(final(self).particles(), width, height),
            old(self).in_bounds() ==> final(self).in_bounds(),
    {
        if !self.observe(running) {
            return FrameOutcome::Stopped;
        }
        if fits_header(timestamp, width) {
            let ghost before = *self;
            let ops: Vec<TerminalOp> = self.frame(timestamp, width, height, rng);
            proof {
                assert(before.carried_over(width, height) == old(self).carried_over(width, height));
                let (moved, grown) = choose|moved: Seq<Particle>, grown: Seq<Particle>| #[trigger]
                    before.frame_step(*self, op_views(ops@), timestamp@, width, height, moved, grown);
                assert(old(self).frame_step(
                    *self,
                    op_views(ops@),
                    timestamp@,
                    width,
                    height,
                    moved,
                    grown,
                ));
            }
            let outcome = FrameOutcome::Drawn(ops);
            assert(old(self).is_frame(*self, op_views(outcome->Drawn_0@), timestamp@, width, height));
            outcome
        } else {
            self.sync_dimensions(width, height);
            FrameOutcome::HeaderTooWide
        }
    }

    /// One iteration of the loop: reads the clock for the header timestamp
    /// and goes on as `tick_at` does with it.
    ///
    /// Once the flag has been seen `false` the outcome is `Stopped`. A running
    /// loop draws a frame on every terminal of 22 columns or more, where every
    /// timestamp fits, and on none of less than 18, where none does; in
    /// between the length of the year decides. A frame that is drawn is the
    /// frame for a timestamp that fits.
    pub fn tick(&mut self, running: bool, width: u16, height: u16, rng: &mut StdRng) -> (outcome:
        FrameOutcome)
        ensures
            !(old(self).spec_state() is Running && running) ==> {
                &&& outcome is Stopped
                &&& final(self).spec_state() is Stopped
                &&& final(self).spec_dimensions() == old(self).spec_dimensions()
                &&& final(self).particles() == old(self).particles()
            },
            old(self).spec_state() is Running && running ==> !(outcome is Stopped),
            old(self).spec_state() is Running && running && width >= 22 ==> outcome is Drawn,
            old(self).spec_state() is Running && running && width < 18 ==> outcome is HeaderTooWide,
            old(self).spec_state() is Running && running && outcome is Drawn ==> exists|
                timestamp: Seq<char>,
            |
                header_fits(timestamp, width) && #[trigger] old(self).is_frame(
                    *final(self),
                    op_views(outcome->Drawn_0@),
                    timestamp,
                    width,
                    height,
                ),
            old(self).spec_state() is Running && running && outcome is HeaderTooWide
                ==> old(self).is_resync(*final(self), width, height),
            outcome is Drawn && old(self).spec_dimensions() != (TerminalDimensions { width, height })
                ==> RenderLoop::is_fresh_field(final(self).particles(), width, height),
            old(self).in_bounds() ==> final(self).in_bounds(),
    {
        let timestamp: String = local_timestamp();
        proof {
            lemma_help_text_cells();
            is_ascii_chars_encode_utf8(timestamp@);
        }
        let outcome = self.tick_at(running, timestamp.as_str(), width, height, rng);
        proof {
            if old(self).spec_state() is Running && running && outcome is Drawn {
                assert(header_fits(timestamp@, width));
                assert(old(self).is_frame(
                    *self,
                    op_views(outcome->Drawn_0@),
                    timestamp@,
                    width,
                    height,
                ));
            }
        }
        outcome
    }
}

/// Whether both header lines can be centred on a terminal of this width.
pub fn fits_header(timestamp: &str, width: u16) -> (fits: bool)
    ensures
        fits == header_fits(timestamp@, width),
{
    proof {
        lemma_help_text_cells();
    }
    byte_len(timestamp) / 2 <= (width / 2) as usize && 8 <= width / 2
}

/// Queues one centred header line.
fn push_centered_line(ops: &mut Vec<TerminalOp>, text: &str, width: u16, row: u16)
    requires
        text_cells(text@) / 2 <= width / 2,
    ensures
        op_views(final(ops)@) == op_views(old(ops)@) + line_ops(text@, width, row),
{
    let half: usize = byte_len(text) / 2;
    let column: u16 = width / 2 - (half as u16);
    ops.push(TerminalOp::MoveTo { column, row });
    ops.push(TerminalOp::SetForeground(Color::White));
    ops.push(TerminalOp::PrintText(text.to_owned()));
    assert(op_views(ops@) =~= op_views(old(ops)@) + line_ops(text@, width, row));
}

/// A frame keeps the particles inside the terminal: if every particle was
/// inside the terminal of the frame before, every particle is inside the
/// terminal of this frame, whether or not the size has changed.
pub proof fn lemma_frame_keeps_bounds(
    before: RenderLoop,
    after: RenderLoop,
    ops: Seq<OpView>,
    timestamp: Seq<char>,
    width: u16,
    height: u16,
)
    requires
        before.in_bounds(),
        before.is_frame(after, ops, timestamp, width, height),
    ensures
        after.in_bounds(),
{
    let (moved, grown) = choose|moved: Seq<Particle>, grown: Seq<Particle>| #[trigger]
        before.frame_step(after, ops, timestamp, width, height, moved, grown);
    lemma_advance_stays_in_columns(before.carried_over(width, height), moved, width, height);
    assert forall|i: int| 0 <= i < grown.len() implies (#[trigger] grown[i]).x < width by {
        if i < moved.len() {
            assert(grown[i] == grown.drop_last()[i]);
        }
    }
    lemma_pruned_stays_in_columns(grown, width, height);
    lemma_pruned_is_on_screen(grown, height);
}

/// The frame of a change of size starts from an empty field: it draws the
/// header and no particle, and leaves exactly the one particle it spawned,
/// or nothing on a screen without rows. No particle from before the change
/// is left.
pub proof fn lemma_frame_after_resize(
    before: RenderLoop,
    after: RenderLoop,
    ops: Seq<OpView>,
    timestamp: Seq<char>,
    width: u16,
    height: u16,
)
    requires
        before.is_frame(after, ops, timestamp, width, height),
        before.spec_dimensions() != (TerminalDimensions { width, height }),
    ensures
        RenderLoop::is_fresh_field(after.particles(), width, height),
        ops == frame_ops(timestamp, width, Seq::empty()),
{
    let (moved, grown) = choose|moved: Seq<Particle>, grown: Seq<Particle>| #[trigger]
        before.frame_step(after, ops, timestamp, width, height, moved, grown);
    assert(moved =~= Seq::<Particle>::empty());
    let spawned_one = grown.last();
    assert(grown =~= Seq::<Particle>::empty().push(spawned_one));
    Seq::<Particle>::empty().lemma_filter_push(spawned_one, on_screen(height));
    assert(Seq::<Particle>::empty().filter(on_screen(height)) =~= Seq::<Particle>::empty()) by {
        reveal(Seq::filter);
    }
}

/// After a frame every particle in the field is on the screen.
pub proof fn lemma_frame_rows_on_screen(
    before: RenderLoop,
    after: RenderLoop,
    ops: Seq<OpView>,
    timestamp: Seq<char>,
    width: u16,
    height: u16,
)
    requires
        before.is_frame(after, ops, timestamp, width, height),
    ensures
        all_on_screen(after.particles(), height),
{
    let (moved, grown) = choose|moved: Seq<Particle>, grown: Seq<Particle>| #[trigger]
        before.frame_step(after, ops, timestamp, width, height, moved, grown);
    lemma_pruned_is_on_screen(grown, height);
}

/// On a screen with at least one row a frame adds exactly one particle to
/// those it started from, and draws each of these once.
pub proof fn lemma_frame_adds_one(
    before: RenderLoop,
    after: RenderLoop,
    ops: Seq<OpView>,
    timestamp: Seq<char>,
    width: u16,
    height: u16,
)
    requires
        before.is_frame(after, ops, timestamp, width, height),
        height > 0,
    ensures
        after.particles().len() == before.carried_over(width, height).len() + 1,
        advanced(before.carried_over(width, height), after.particles().drop_last(), width, height),
        ops == frame_ops(timestamp, width, after.particles().drop_last()),
{
    let (moved, grown) = choose|moved: Seq<Particle>, grown: Seq<Particle>| #[trigger]
        before.frame_step(after, ops, timestamp, width, height, moved, grown);
    lemma_advance_stays_on_screen(before.carried_over(width, height), moved, width, height);
    assert forall|i: int| 0 <= i < grown.len() implies (#[trigger] grown[i]).y < height by {
        if i < moved.len() {
            assert(grown[i] == grown.drop_last()[i]);
        }
    }
    lemma_prune_keeps_all(grown, height);
}

/// The help text fills 17 cells.
pub proof fn lemma_help_text_cells()
    ensures
        text_cells(help_text()) == 17,
{
    reveal_strlit("Press 'q' to quit");
    assert(is_ascii_chars(help_text()));
    is_ascii_chars_encode_utf8(help_text());
}

/// A frame flushes exactly once, as its last operation, after everything it
/// draws has been queued.
pub proof fn lemma_frame_flushes_once(timestamp: Seq<char>, width: u16, moved: Seq<Particle>)
    ensures
        flush_count(frame_ops(timestamp, width, moved)) == 1,
        frame_ops(timestamp, width, moved).last() is Flush,
{
    let drawn = header_ops(timestamp, width) + particle_ops(moved);
    lemma_particle_ops_no_flush(moved);
    lemma_flush_count_add(header_ops(timestamp, width), particle_ops(moved));
    let h0 = seq![OpView::ClearAll];
    lemma_flush_count_add(h0, line_ops(timestamp, width, 0));
    lemma_flush_count_add(h0 + line_ops(timestamp, width, 0), line_ops(help_text(), width, 1));
    lemma_flush_count_short(h0);
    lemma_flush_count_short(line_ops(timestamp, width, 0));
    lemma_flush_count_short(line_ops(help_text(), width, 1));
    assert(frame_ops(timestamp, width, moved).drop_last() =~= drawn);
}

/// The flushes of a concatenation are those of its parts.
proof fn lemma_flush_count_add(a: Seq<OpView>, b: Seq<OpView>)
    ensures
        flush_count(a + b) == flush_count(a) + flush_count(b),
    decreases b.len(),
{
    if b.len() == 0 {
        assert(a + b =~= a);
    } else {
        lemma_flush_count_add(a, b.drop_last());
        assert((a + b).drop_last() =~= a + b.drop_last());
    }
}

/// A list without a `Flush` has no flushes.
proof fn lemma_flush_count_short(ops: Seq<OpView>)
    requires
        forall|i: int| 0 <= i < ops.len() ==> !(ops[i] is Flush),
    ensures
        flush_count(ops) == 0,
    decreases ops.len(),
{
    if ops.len() > 0 {
        lemma_flush_count_short(ops.drop_last());
    }
}

/// Drawing particles never flushes.
proof fn lemma_particle_ops_no_flush(particles: Seq<Particle>)
    ensures
        flush_count(particle_ops(particles)) == 0,
    decreases particles.len(),
{
    if particles.len() > 0 {
        lemma_particle_ops_no_flush(particles.drop_last());
        lemma_flush_count_short(glyph_ops(particles.last()));
        lemma_flush_count_add(particle_ops(particles.drop_last()), glyph_ops(particles.last()));
    }
}

} // verus!
