//! Entering and leaving the animation's terminal mode.
//!
//! The animation runs in raw mode on the alternate screen with the cursor
//! hidden. Teardown may run more than once and from more than one place, so it
//! sets every part of the mode outright instead of toggling it.

use crate::terminal::{op_views, Color, OpView, TerminalMode, TerminalOp};
use vstd::prelude::*;

verus! {

/// What setup performs, in order.
pub open spec fn setup_sequence() -> Seq<OpView> {
    seq![OpView::EnableRawMode, OpView::EnterAlternateScreen, OpView::HideCursor]
}

/// What teardown performs, in order.
pub open spec fn teardown_sequence() -> Seq<OpView> {
    seq![
        OpView::DisableRawMode,
        OpView::LeaveAlternateScreen,
        OpView::ShowCursor,
        OpView::SetForeground(Color::Reset),
        OpView::Flush,
    ]
}

/// The raw-mode, alternate-screen resource of one run.
pub struct LifecycleGuard;

impl LifecycleGuard {
    /// The operations that take the terminal into the animation's mode.
    pub fn setup() -> (ops: Vec<TerminalOp>)
        ensures
            op_views(ops@) == setup_sequence(),
    {
        let mut ops: Vec<TerminalOp> = Vec::new();
        ops.push(TerminalOp::EnableRawMode);
        ops.push(TerminalOp::EnterAlternateScreen);
        ops.push(TerminalOp::HideCursor);
        assert(op_views(ops@) =~= setup_sequence());
        ops
    }

    /// The operations that give the terminal back, on every way out.
    pub fn teardown() -> (ops: Vec<TerminalOp>)
        ensures
            op_views(ops@) == teardown_sequence(),
    {
        let mut ops: Vec<TerminalOp> = Vec::new();
        ops.push(TerminalOp::DisableRawMode);
        ops.push(TerminalOp::LeaveAlternateScreen);
        ops.push(TerminalOp::ShowCursor);
        ops.push(TerminalOp::SetForeground(Color::Reset));
        ops.push(TerminalOp::Flush);
        assert(op_views(ops@) =~= teardown_sequence());
        ops
    }
}

/// Performing `ops` and then `op` is performing `ops.push(op)`.
proof fn lemma_after_push(mode: TerminalMode, ops: Seq<OpView>, op: OpView)
    ensures
        mode.after_all(ops.push(op)) == mode.after_all(ops).after(op),
{
    assert(ops.push(op).drop_last() =~= ops);
}

/// The mode after teardown, from any mode.
proof fn lemma_teardown_unfolded(mode: TerminalMode)
    ensures
        mode.after_all(teardown_sequence()) == mode.after(OpView::DisableRawMode).after(
            OpView::LeaveAlternateScreen,
        ).after(OpView::ShowCursor).after(OpView::SetForeground(Color::Reset)).after(OpView::Flush),
{
    let s0 = Seq::<OpView>::empty();
    let s1 = s0.push(OpView::DisableRawMode);
    let s2 = s1.push(OpView::LeaveAlternateScreen);
    let s3 = s2.push(OpView::ShowCursor);
    let s4 = s3.push(OpView::SetForeground(Color::Reset));
    let s5 = s4.push(OpView::Flush);
    assert(s5 =~= teardown_sequence());
    assert(mode.after_all(s0) == mode);
    lemma_after_push(mode, s0, OpView::DisableRawMode);
    lemma_after_push(mode, s1, OpView::LeaveAlternateScreen);
    lemma_after_push(mode, s2, OpView::ShowCursor);
    lemma_after_push(mode, s3, OpView::SetForeground(Color::Reset));
    lemma_after_push(mode, s4, OpView::Flush);
}

/// Teardown gives the terminal back whatever state it was in: cooked input,
/// primary screen, visible cursor, default foreground.
pub proof fn lemma_teardown_restores(mode: TerminalMode)
    ensures
        mode.after_all(teardown_sequence()).is_restored(),
{
    lemma_teardown_unfolded(mode);
}

/// Teardown is idempotent: a second teardown right after the first is defined
/// in the state the first one left and changes nothing.
pub proof fn lemma_teardown_idempotent(mode: TerminalMode)
    ensures
        mode.after_all(teardown_sequence()).after_all(teardown_sequence()) == mode.after_all(
            teardown_sequence(),
        ),
{
    lemma_teardown_unfolded(mode);
    lemma_teardown_unfolded(mode.after_all(teardown_sequence()));
}

/// Setup followed by teardown leaves a restored terminal restored.
pub proof fn lemma_setup_then_teardown(mode: TerminalMode)
    ensures
        mode.after_all(setup_sequence()).after_all(teardown_sequence()).is_restored(),
{
    lemma_teardown_restores(mode.after_all(setup_sequence()));
}

} // verus!
