//! Stratified random sampling of files over a directory tree.
//!
//! Each immediate subdirectory of an input root is one *stratum*. For every
//! stratum the library draws a uniform random sample of up to `n` of its
//! files in a single pass (reservoir sampling), and plans a mirrored output
//! tree: one output directory per stratum and one copy operation per sampled
//! file, with the input-root prefix of every path replaced by the output
//! root. Reading directories and performing the copies is left to the caller;
//! the library works on plain byte-string paths.

pub mod paths;
pub mod plan;
pub mod sampler;
