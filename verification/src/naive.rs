//! Naive implementation for single CPU use.
//!
//! The degenerate variant for environments with exactly one logical CPU:
//! there is one area, no register indirection, and nothing to initialize,
//! so every operation returns a fixed constant or has no effect.

use vstd::prelude::*;

verus! {

/// Returns the per-CPU data area size for one CPU.
///
/// Always returns `0` for single-core use.
pub fn percpu_area_size() -> (size: usize)
    ensures
        size == 0,
{
    0
}

/// Returns the number of per-CPU data areas reserved.
///
/// Always returns `1` for single-core use.
pub fn percpu_area_num() -> (num: usize)
    ensures
        num == 1,
{
    1
}

/// Returns the base address of the per-CPU data area on the given CPU.
///
/// Always returns `0` for single-core use, whatever `cpu_id` is, even an
/// out-of-range index.
pub fn percpu_area_base(_cpu_id: usize) -> (addr: usize)
    ensures
        addr == 0,
{
    0
}

/// Reads the architecture-specific per-CPU data register.
///
/// Always returns `0` for single-core use.
pub fn read_percpu_reg() -> (tp: usize)
    ensures
        tp == 0,
{
    0
}

/// Writes the architecture-specific per-CPU data register.
///
/// No effect for single-core use.
pub fn write_percpu_reg(_tp: usize) {
}

/// Initializes the per-CPU data register.
///
/// No effect for single-core use.
pub fn init_percpu_reg(_cpu_id: usize) {
}

/// Initialize all per-CPU data areas.
///
/// Returns the number of areas initialized.
///
/// For single-core use it does nothing and returns `1`, on every call.
pub fn init() -> (num: usize)
    ensures
        num == 1,
{
    1
}

} // verus!
