//! The filter that keeps the logs of replayed code quiet.

use vstd::prelude::*;

verus! {

/// Drops the events of spans that run replayed user code.
#[derive(Clone, Copy, Debug)]
pub struct ReplayFilter {}

impl ReplayFilter {
    pub fn new() -> (r: Self)
        ensures
            r == (ReplayFilter {}),
    {
        ReplayFilter {}
    }

    /// Whether an event is logged: one outside any span always is; one inside
    /// a span is when the span's root does not run replayed code.
    pub fn event_enabled(&self, root_span_replay: Option<bool>) -> (r: bool)
        ensures
            r == match root_span_replay {
                Some(replay) => !replay,
                None => true,
            },
    {
        match root_span_replay {
            Some(replay) => !replay,
            None => true,
        }
    }

    /// The replay mark of a span after a boolean field was recorded on it: a
    /// field named `replay` sets it.
    pub fn recorded_replay(&self, is_replay_field: bool, value: bool, current: bool) -> (r: bool)
        ensures
            r == if is_replay_field { value } else { current },
    {
        if is_replay_field {
            value
        } else {
            current
        }
    }
}

} // verus!
