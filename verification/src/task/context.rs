//! Saved CPU register state of schedulable contexts.

use vstd::prelude::*;

verus! {

/// Default per-task kernel stack size for context-switched tasks.
pub const DEFAULT_KERNEL_STACK_SIZE: usize = 16384;
/// Smallest kernel stack a context may get.
pub const MIN_KERNEL_STACK_SIZE: usize = 1024;
/// Interrupts enabled, reserved bit 1 set.
pub const INITIAL_RFLAGS: u64 = 0x202;

/// Saved callee-saved registers, stack and instruction pointers and flags.
#[derive(Debug, Clone, Copy, PartialEq, Eq, Structural)]
pub struct CpuContext {
    pub r15: u64,
    pub r14: u64,
    pub r13: u64,
    pub r12: u64,
    pub rbx: u64,
    pub rbp: u64,
    pub rsp: u64,
    pub rip: u64,
    pub rflags: u64,
}

impl CpuContext {
    pub open spec fn zeroed() -> CpuContext {
        CpuContext { r15: 0, r14: 0, r13: 0, r12: 0, rbx: 0, rbp: 0, rsp: 0, rip: 0, rflags: 0 }
    }

    /// A context with every register zero.
    pub fn empty() -> (r: Self)
        ensures
            r == Self::zeroed(),
    {
        CpuContext { r15: 0, r14: 0, r13: 0, r12: 0, rbx: 0, rbp: 0, rsp: 0, rip: 0, rflags: 0 }
    }

    /// The first context of a task entered at `entry` on a stack whose top is
    /// `stack_top`: interrupts enabled, every other register zero.
    pub fn initial(stack_top: u64, entry: u64) -> (r: Self)
        ensures
            r == (CpuContext { rsp: stack_top, rip: entry, rflags: INITIAL_RFLAGS, ..Self::zeroed() }),
    {
        let mut context = Self::empty();
        context.rsp = stack_top;
        context.rip = entry;
        context.rflags = INITIAL_RFLAGS;
        context
    }
}

/// The top of a stack of `size` bytes starting at `base` (saturating).
pub fn stack_top(base: u64, size: usize) -> (r: u64)
    ensures
        r == if base + size > u64::MAX { u64::MAX } else { (base + size) as u64 },
{
    base.saturating_add(size as u64)
}

} // verus!
