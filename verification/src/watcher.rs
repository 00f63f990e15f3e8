//! The decisions of the input watcher.
//!
//! The watcher blocks on single-byte reads from standard input, next to the
//! render loop. What it does with each read is decided here.

use crate::lifecycle::{teardown_sequence, LifecycleGuard};
use crate::terminal::{op_views, TerminalOp};
use vstd::prelude::*;

verus! {

/// The outcome of one blocking read.
#[derive(Clone, Copy, Debug, PartialEq, Eq, Structural)]
pub enum ReadEvent {
    /// One byte arrived.
    Byte(u8),
    /// End of stream, or the read failed: no more input can arrive.
    Closed,
}

/// What the watcher does next.
#[derive(Clone, Copy, Debug, PartialEq, Eq, Structural)]
pub enum WatcherAction {
    /// Read the next byte.
    KeepReading,
    /// Clear the cancellation flag, carry out `InputWatcher::shutdown` and
    /// leave the process at once.
    Quit,
    /// Stop watching without a word; the process goes on.
    StopWatching,
}

/// The forced shutdown that a quit key triggers.
#[derive(Clone, Debug, PartialEq, Eq)]
pub struct Shutdown {
    /// The terminal restoration to perform, in order.
    pub ops: Vec<TerminalOp>,
    /// The status the process exits with.
    pub exit_code: i32,
}

/// `q` or `Q`.
pub open spec fn is_quit_key(byte: u8) -> bool {
    byte == 0x71 || byte == 0x51
}

/// The action that answers a read.
pub open spec fn action_for(event: ReadEvent) -> WatcherAction {
    match event {
        ReadEvent::Byte(byte) => if is_quit_key(byte) {
            WatcherAction::Quit
        } else {
            WatcherAction::KeepReading
        },
        ReadEvent::Closed => WatcherAction::StopWatching,
    }
}

/// The watcher of the input device.
pub struct InputWatcher;

impl InputWatcher {
    /// Decides what follows a read: a quit key ends the process, any other byte
    /// is ignored, and a closed stream ends the watching only.
    pub fn on_read(event: ReadEvent) -> (action: WatcherAction)
        ensures
            action == action_for(event),
    {
        match event {
            ReadEvent::Byte(byte) => {
                if byte == 0x71 || byte == 0x51 {
                    WatcherAction::Quit
                } else {
                    WatcherAction::KeepReading
                }
            },
            ReadEvent::Closed => WatcherAction::StopWatching,
        }
    }

    /// What the watcher itself carries out on a quit key, without waiting for
    /// the render loop: the full teardown, then exit with status 0.
    pub fn shutdown() -> (plan: Shutdown)
        ensures
            op_views(plan.ops@) == teardown_sequence(),
            plan.exit_code == 0,
    {
        Shutdown { ops: LifecycleGuard::teardown(), exit_code: 0 }
    }
}

} // verus!
