//! Task definition: a design brief plus a rubric to score the result
//! against. Nothing here knows about a particular backend; that is the
//! runner's job.

use vstd::prelude::*;

use crate::quantity::Quantity;

verus! {

/// What a criterion actually checks. The variant carries the data the check
/// needs (such as a confidence threshold), so the two cannot drift apart.
/// Whether a criterion is automated is a property of the variant:
/// [`Check::Subjective`] is the only kind that is not scored automatically.
#[derive(Debug, Clone)]
pub enum Check {
    /// Every pipeline stage that actually ran must have exited 0.
    StagesPass,
    /// Every decision in the run's trace must clear this confidence
    /// threshold (0.0-1.0).
    MinDecisionConfidence { threshold: Quantity },
    /// DRC must report zero errors.
    DrcClean,
    /// A sine sweep driven into the rendered circuit's input net must show
    /// real clipping: the flat-topped fraction of the output at the largest
    /// amplitude must reach `min_flat_top_at_max`. The sweep parameters are
    /// optional; the backend's scope probe has its own defaults for each.
    SpiceClips {
        input_net_hint: Option<String>,
        freq_hz: Option<Quantity>,
        min_amplitude_v: Option<Quantity>,
        max_amplitude_v: Option<Quantity>,
        steps: Option<u32>,
        min_flat_top_at_max: Quantity,
    },
    /// Not automated: a human fills this in. Named explicitly so a task
    /// file is honest about what it cannot verify itself.
    Subjective,
}

impl Check {
    /// Whether this check is scored automatically.
    pub fn is_automated(&self) -> (r: bool)
        ensures
            r == !(self is Subjective),
    {
        match self {
            Check::Subjective => false,
            _ => true,
        }
    }
}

/// One rubric line item.
#[derive(Debug, Clone)]
pub struct Criterion {
    pub id: String,
    pub description: String,
    pub check: Check,
}

/// One eval task: what to design, and what "good" means.
#[derive(Debug, Clone)]
pub struct Task {
    pub id: String,
    pub family: String,
    pub brief: String,
    pub input: Option<String>,
    pub rubric: Vec<Criterion>,
}

} // verus!
