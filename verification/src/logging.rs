//! Runtime logging knobs shared by all pipeline stages.
use vstd::prelude::*;

verus! {

/// Which optional logs are emitted. Periodic progress logs are off unless
/// they are switched on; one-shot lifecycle logs are not affected.
#[derive(Debug, Clone, Copy, PartialEq, Eq, Structural)]
pub struct LoggingKnobs {
    progress: bool,
}

impl LoggingKnobs {
    /// Whether periodic progress logs should be emitted.
    pub closed spec fn progress(self) -> bool {
        self.progress
    }
}

impl Default for LoggingKnobs {
    fn default() -> (knobs: LoggingKnobs)
        ensures
            !knobs.progress(),
    {
        LoggingKnobs { progress: false }
    }
}

/// Enables or disables periodic progress logs.
pub fn set_progress_logging(knobs: &mut LoggingKnobs, enabled: bool)
    ensures
        final(knobs).progress() == enabled,
{
    knobs.progress = enabled;
}

/// Returns whether periodic progress logs should be emitted.
pub fn progress_logging(knobs: &LoggingKnobs) -> (r: bool)
    ensures
        r == knobs.progress(),
{
    knobs.progress
}

/// Whether frame number `total` (counted from one) is worth a log line:
/// every keyframe, the first frame, and one in 300 when progress is logged.
pub fn logs_frame(knobs: &LoggingKnobs, total: u64, is_keyframe: bool) -> (r: bool)
    ensures
        r == (is_keyframe || total == 1 || (knobs.progress() && total % 300 == 1)),
{
    is_keyframe || total == 1 || (progress_logging(knobs) && total % 300 == 1)
}

} // verus!
