//! Verified core of the AresOS kernel: bookkeeping registries, the block
//! filesystem, the scheduler's decision logic and the syscall surface.

pub mod interrupts;
pub mod storage;
pub mod text;
pub mod frame_ownership;
pub mod performance;
pub mod task;
pub mod kernel_state;
pub mod syscall;
pub mod load_plan;
pub mod address_space;
pub mod security;
pub mod frame_backing;
pub mod mapping_stub;
pub mod user_memory;
pub mod user_context;
pub mod user_copy;
pub mod elf_reloc;
pub mod user_syscall;
pub mod user_syscall_hw;
pub mod user_paging;
