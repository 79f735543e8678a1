//! Line-oriented text transformation: a pipeline of steps built from
//! command tokens and applied to each line of a stream.

pub mod laws;
pub mod outside;
pub mod pipeline;
pub mod step;
pub mod stream;

pub use pipeline::Pipeline;
pub use step::PipelineStep;
