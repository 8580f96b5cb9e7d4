//! Library prelude to bring in the most used structures and traits.

pub use crate::{Middleware, Pipeline, PipelineBuilder, PipelineContext, PipelineError, Predicate};
