//! Per-CPU static storage.
//!
//! Each declared variable gets one private copy per logical CPU. A single
//! template image holds the initial value of every variable; at
//! initialization the template is replicated into one area per CPU, and a
//! per-CPU base register locates the running CPU's own area. A variable is
//! then addressed as `base register + offset`, with no locking for
//! core-local state.
//!
//! The [`imp`] module holds the area layout and the one-time initializer,
//! [`accessor`] the per-variable read/write operations, [`codec`] the
//! little-endian value encoding they use, and [`naive`] the degenerate
//! single-core variant.

pub mod accessor;
pub mod codec;
pub mod imp;
pub mod naive;
