//! Luminance-difference metric between RGB8 rasters, with fixed-point
//! luma weights, batched pixel-triple traversal and a max-reduction over
//! several comparisons.

mod engine;
mod luma;
mod orchestrator;
mod sequencer;

pub use engine::{
    DiffError, Raster, batch_diff, calculate_diff, diff_buffers, law_identity, law_symmetry,
};
pub use luma::{LumaWeights, Reduction, divide_to_original, get_luminance_value};
pub use orchestrator::{Score, law_max_reduction, law_run_deterministic, run, run_parallel};
pub use sequencer::{LaneWidth, TripleSequencer};
