//! Terminal operations as values, and a model of the terminal state they act on.
//!
//! The library never touches a terminal. It hands its caller lists of
//! `TerminalOp`s to perform in order on the one output device.

use vstd::prelude::*;

verus! {

/// A foreground colour.
#[derive(Clone, Copy, Debug, PartialEq, Eq, Structural)]
pub enum Color {
    /// The terminal's default foreground.
    Reset,
    /// The neutral colour of the status lines.
    White,
    /// An entry of the 256-colour palette.
    Ansi(u8),
}

/// One operation on the terminal.
#[derive(Clone, Debug, PartialEq, Eq)]
pub enum TerminalOp {
    /// Deliver keystrokes byte by byte, without echo.
    EnableRawMode,
    /// Back to line-buffered input.
    DisableRawMode,
    /// Switch to the secondary screen buffer.
    EnterAlternateScreen,
    /// Back to the primary screen buffer.
    LeaveAlternateScreen,
    HideCursor,
    ShowCursor,
    /// Clear the whole screen.
    ClearAll,
    /// Move the cursor.
    MoveTo { column: u16, row: u16 },
    SetForeground(Color),
    /// Write a text at the cursor.
    PrintText(String),
    /// Write one character at the cursor.
    PrintGlyph(char),
    /// Deliver everything queued so far to the device.
    Flush,
}

/// What a `TerminalOp` means: the same operation, with its text as a sequence
/// of characters.
pub ghost enum OpView {
    EnableRawMode,
    DisableRawMode,
    EnterAlternateScreen,
    LeaveAlternateScreen,
    HideCursor,
    ShowCursor,
    ClearAll,
    MoveTo { column: u16, row: u16 },
    SetForeground(Color),
    PrintText(Seq<char>),
    PrintGlyph(char),
    Flush,
}

impl View for TerminalOp {
    type V = OpView;

    open spec fn view(&self) -> OpView {
        match *self {
            TerminalOp::EnableRawMode => OpView::EnableRawMode,
            TerminalOp::DisableRawMode => OpView::DisableRawMode,
            TerminalOp::EnterAlternateScreen => OpView::EnterAlternateScreen,
            TerminalOp::LeaveAlternateScreen => OpView::LeaveAlternateScreen,
            TerminalOp::HideCursor => OpView::HideCursor,
            TerminalOp::ShowCursor => OpView::ShowCursor,
            TerminalOp::ClearAll => OpView::ClearAll,
            TerminalOp::MoveTo { column, row } => OpView::MoveTo { column, row },
            TerminalOp::SetForeground(color) => OpView::SetForeground(color),
            TerminalOp::PrintText(text) => OpView::PrintText(text@),
            TerminalOp::PrintGlyph(glyph) => OpView::PrintGlyph(glyph),
            TerminalOp::Flush => OpView::Flush,
        }
    }
}

/// The meaning of a list of operations, one by one.
pub open spec fn op_views(ops: Seq<TerminalOp>) -> Seq<OpView> {
    Seq::new(ops.len(), |i: int| ops[i]@)
}

/// How often `Flush` occurs in `ops`.
pub open spec fn flush_count(ops: Seq<OpView>) -> nat
    decreases ops.len(),
{
    if ops.len() == 0 {
        0
    } else if ops.last() is Flush {
        flush_count(ops.drop_last()) + 1
    } else {
        flush_count(ops.drop_last())
    }
}

/// The part of the terminal's state that setup and teardown change.
#[derive(Clone, Copy, Debug, PartialEq, Eq, Structural)]
pub struct TerminalMode {
    pub raw: bool,
    pub alternate_screen: bool,
    pub cursor_hidden: bool,
    pub foreground: Color,
}

impl TerminalMode {
    /// The mode of a terminal that no program has changed.
    pub open spec fn is_restored(self) -> bool {
        &&& !self.raw
        &&& !self.alternate_screen
        &&& !self.cursor_hidden
        &&& self.foreground == Color::Reset
    }

    /// The mode after one operation. Each operation sets its part of the mode
    /// whatever it was before; drawing operations leave the mode alone.
    pub open spec fn after(self, op: OpView) -> TerminalMode {
        match op {
            OpView::EnableRawMode => TerminalMode { raw: true, ..self },
            OpView::DisableRawMode => TerminalMode { raw: false, ..self },
            OpView::EnterAlternateScreen => TerminalMode { alternate_screen: true, ..self },
            OpView::LeaveAlternateScreen => TerminalMode { alternate_screen: false, ..self },
            OpView::HideCursor => TerminalMode { cursor_hidden: true, ..self },
            OpView::ShowCursor => TerminalMode { cursor_hidden: false, ..self },
            OpView::SetForeground(color) => TerminalMode { foreground: color, ..self },
            _ => self,
        }
    }

    /// The mode after a list of operations, performed in order.
    pub open spec fn after_all(self, ops: Seq<OpView>) -> TerminalMode
        decreases ops.len(),
    {
        if ops.len() == 0 {
            self
        } else {
            self.after_all(ops.drop_last()).after(ops.last())
        }
    }

    /// The mode of a terminal that no program has changed.
    pub fn restored() -> (mode: TerminalMode)
        ensures
            mode.is_restored(),
    {
        TerminalMode { raw: false, alternate_screen: false, cursor_hidden: false, foreground: Color::Reset }
    }

    /// Performs one operation on the model.
    pub fn apply(&mut self, op: &TerminalOp)
        ensures
            *final(self) == old(self).after(op@),
    {
        match op {
            TerminalOp::EnableRawMode => {
                self.raw = true;
            },
            TerminalOp::DisableRawMode => {
                self.raw = false;
            },
            TerminalOp::EnterAlternateScreen => {
                self.alternate_screen = true;
            },
            TerminalOp::LeaveAlternateScreen => {
                self.alternate_screen = false;
            },
            TerminalOp::HideCursor => {
                self.cursor_hidden = true;
            },
            TerminalOp::ShowCursor => {
                self.cursor_hidden = false;
            },
            TerminalOp::SetForeground(color) => {
                self.foreground = *color;
            },
            _ => {},
        }
    }

    /// Performs a list of operations on the model, in order.
    pub fn apply_all(&mut self, ops: &Vec<TerminalOp>)
        ensures
            *final(self) == old(self).after_all(op_views(ops@)),
    {
        let n: usize = ops.len();
        let mut i: usize = 0;
        while i < n
            invariant
                i <= n,
                n == ops@.len(),
                *self == old(self).after_all(op_views(ops@.take(i as int))),
            decreases n - i,
        {
            proof {
                let next = op_views(ops@.take(i + 1));
                assert(next.drop_last() =~= op_views(ops@.take(i as int)));
                assert(next.last() == ops@[i as int]@);
            }
            self.apply(&ops[i]);
            i = i + 1;
        }
        proof {
            assert(ops@.take(n as int) =~= ops@);
        }
    }
}

} // verus!
