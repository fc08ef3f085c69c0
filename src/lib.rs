//! Build helpers for sched_ext schedulers with a BPF component: compiler
//! flag derivation, dependency tracking and the build plan that drives the
//! compiler, linker and binding generators.
pub mod builder;
pub mod flags;
pub mod paths;
pub mod strset;
pub mod toolchain;
