//! What a tailing stream does with each read of the file it follows.
use crate::text::{owned, trim_str, trim_text};
use vstd::prelude::*;

verus! {

/// Milliseconds to wait at the end of the file, or after a failed read, before reading again.
pub const TAIL_PAUSE_MILLIS: u64 = 500;

/// What one read of the followed file gave.
#[derive(Debug)]
pub enum ReadOutcome {
    EndOfFile,
    Line(String),
    Failed,
}

/// What the stream does next.
#[derive(Debug)]
pub enum TailAction {
    /// Wait `TAIL_PAUSE_MILLIS`, then read again.
    Pause,
    /// Hand this text to the ingestion pipeline, then read again.
    Ingest(String),
    /// Read again at once.
    Skip,
}

/// The step of a tailing stream: pause at the end of the file or after a
/// failed read; ingest a line without its surrounding white space, unless
/// nothing is left of it.
pub fn next_tail_action(outcome: &ReadOutcome) -> (r: TailAction)
    ensures
        match outcome {
            ReadOutcome::EndOfFile => r is Pause,
            ReadOutcome::Failed => r is Pause,
            ReadOutcome::Line(l) => if trim_text(l@).len() == 0 {
                r is Skip
            } else {
                r matches TailAction::Ingest(t) && t@ == trim_text(l@)
            },
        },
{
    match outcome {
        ReadOutcome::EndOfFile => TailAction::Pause,
        ReadOutcome::Failed => TailAction::Pause,
        ReadOutcome::Line(l) => {
            let t = trim_str(l.as_str());
            if t.is_empty() {
                TailAction::Skip
            } else {
                TailAction::Ingest(owned(t))
            }
        },
    }
}

} // verus!
