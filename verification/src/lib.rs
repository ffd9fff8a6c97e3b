//! Core-to-core latency measurement: the verified engine.
//!
//! The program measures the one-way latency between every pair of logical
//! cores by bouncing a round number between two pinned threads. This
//! library holds everything about that measurement that is a matter of
//! logic rather than of the operating system:
//!
//! * [`options`] and [`params`]: the command line and the validated
//!   parameters of a run;
//! * [`topology`]: the cores to measure, from the affinity mask;
//! * [`cpuid`] and [`geometry`]: the cache line size, from the processor,
//!   and what it means for the layout of a channel;
//! * [`channel`]: the two cache-line-isolated atomic cells that a pair of
//!   threads share;
//! * [`protocol`]: the handshake that the two threads follow, and
//!   [`simulation`]: the proof that it keeps them in lockstep;
//! * [`reduce`]: the reduction of the timings of a pair to its minimum and
//!   average latency;
//! * [`matrix`] and [`builder`]: the walk over all pairs and the assembly
//!   of the two symmetric latency matrices;
//! * [`render`]: the matrices as text;
//! * [`error`]: what can end a run.
//!
//! Pinning threads, reading the clock and spinning on the cells are left
//! to the program around the library.
//!
//! [`number`] and [`text`] read and write numbers as text, and [`fms`]
//! takes a processor's signature apart.

pub mod builder;
pub mod channel;
pub mod cpuid;
pub mod error;
pub mod fms;
pub mod geometry;
pub mod matrix;
pub mod number;
pub mod options;
pub mod params;
pub mod protocol;
pub mod reduce;
pub mod render;
pub mod simulation;
pub mod text;
pub mod topology;
