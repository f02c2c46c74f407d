//! The kernel's mutable state, gathered in one value that the syscall layer and the
//! program launcher read and update.

use vstd::prelude::*;
use crate::storage::{MemoryBlockDevice, SimpleFs};
use crate::task::process::ProcessRegistry;
use crate::performance::process_metrics::{EventLog, ProcessMetricsGlobal};
use crate::frame_ownership::FrameRegistry;
use crate::task::program_loader::LaunchCounters;

verus! {

/// The caller's credentials and the access-control counters.
#[derive(Debug, Clone, Copy, PartialEq, Eq, Structural)]
pub struct SecuritySnapshot {
    pub current_user: u64,
    pub current_role: u64,
    pub denied_access_count: u64,
    pub denied_execute_count: u64,
}

/// Numbers of registered devices.
#[derive(Debug, Clone, Copy, PartialEq, Eq, Structural)]
pub struct DeviceCounts {
    pub device_total: usize,
    pub block_device_count: usize,
}

/// Counters of the executable-image pipeline (validation, load plans, mappings,
/// frame backing, user page tables and contexts, ring-3 entries and user syscalls).
#[derive(Debug, Clone, Copy, PartialEq, Eq, Structural)]
pub struct ImagePipelineCounters {
    pub image_count: usize,
    pub valid_image_count: usize,
    pub invalid_image_count: usize,
    pub unsupported_execution_count: u64,
    pub prepared_image_count: u64,
    pub rejected_load_plan_count: u64,
    pub total_planned_pages: u64,
    pub mapped_image_count: u64,
    pub rejected_mapping_count: u64,
    pub total_mapped_pages: u64,
    pub copied_bytes: u64,
    pub zero_filled_bytes: u64,
    pub frame_backed_image_count: u64,
    pub rejected_frame_backing_count: u64,
    pub total_frame_backed_pages: u64,
    pub user_page_table_count: u64,
    pub rejected_user_page_table_count: u64,
    pub total_user_page_table_pages: u64,
    pub user_context_count: u64,
    pub rejected_user_context_count: u64,
    pub ring3_entry_count: u64,
    pub ring3_trap_count: u64,
    pub rejected_ring3_count: u64,
    pub user_syscall_count: u64,
    pub user_syscall_return_count: u64,
    pub rejected_user_syscall_count: u64,
    pub user_elf_execution_count: u64,
    pub user_elf_exit_count: u64,
    pub rejected_user_elf_count: u64,
}

impl Default for ImagePipelineCounters {
    fn default() -> (r: Self)
        ensures
            r == (ImagePipelineCounters {
                image_count: 0,
                valid_image_count: 0,
                invalid_image_count: 0,
                unsupported_execution_count: 0,
                prepared_image_count: 0,
                rejected_load_plan_count: 0,
                total_planned_pages: 0,
                mapped_image_count: 0,
                rejected_mapping_count: 0,
                total_mapped_pages: 0,
                copied_bytes: 0,
                zero_filled_bytes: 0,
                frame_backed_image_count: 0,
                rejected_frame_backing_count: 0,
                total_frame_backed_pages: 0,
                user_page_table_count: 0,
                rejected_user_page_table_count: 0,
                total_user_page_table_pages: 0,
                user_context_count: 0,
                rejected_user_context_count: 0,
                ring3_entry_count: 0,
                ring3_trap_count: 0,
                rejected_ring3_count: 0,
                user_syscall_count: 0,
                user_syscall_return_count: 0,
                rejected_user_syscall_count: 0,
                user_elf_execution_count: 0,
                user_elf_exit_count: 0,
                rejected_user_elf_count: 0,
            }),
    {
        ImagePipelineCounters {
            image_count: 0,
            valid_image_count: 0,
            invalid_image_count: 0,
            unsupported_execution_count: 0,
            prepared_image_count: 0,
            rejected_load_plan_count: 0,
            total_planned_pages: 0,
            mapped_image_count: 0,
            rejected_mapping_count: 0,
            total_mapped_pages: 0,
            copied_bytes: 0,
            zero_filled_bytes: 0,
            frame_backed_image_count: 0,
            rejected_frame_backing_count: 0,
            total_frame_backed_pages: 0,
            user_page_table_count: 0,
            rejected_user_page_table_count: 0,
            total_user_page_table_pages: 0,
            user_context_count: 0,
            rejected_user_context_count: 0,
            ring3_entry_count: 0,
            ring3_trap_count: 0,
            rejected_ring3_count: 0,
            user_syscall_count: 0,
            user_syscall_return_count: 0,
            rejected_user_syscall_count: 0,
            user_elf_execution_count: 0,
            user_elf_exit_count: 0,
            rejected_user_elf_count: 0,
        }
    }
}

/// The kernel state that syscalls and program launches work on.
pub struct KernelState {
    /// Timer ticks since boot.
    pub tick: u64,
    pub fs: SimpleFs<MemoryBlockDevice>,
    pub processes: ProcessRegistry,
    pub process_metrics: ProcessMetricsGlobal,
    pub events: EventLog,
    pub frames: FrameRegistry,
    pub launches: LaunchCounters,
    pub security: SecuritySnapshot,
    pub devices: DeviceCounts,
    pub pipeline: ImagePipelineCounters,
}

impl KernelState {
    pub open spec fn wf(&self) -> bool {
        &&& self.processes.wf()
        &&& self.events.wf()
        &&& self.frames.wf()
    }

    /// The state at boot around filesystem `fs`: tick 0, no processes, events or
    /// tracked frames, and every counter zero.
    pub fn boot(fs: SimpleFs<MemoryBlockDevice>, security: SecuritySnapshot, devices: DeviceCounts) -> (r: Self)
        ensures
            r.wf(),
            r.tick == 0,
            r.fs == fs,
            r.processes.procs().len() == 0,
            r.processes.next_pid() == 1,
            r.events.events().len() == 0,
            !r.frames.is_initialized(),
            r.launches == (LaunchCounters { launch_count: 0, failed_launch_count: 0 }),
            r.process_metrics == (ProcessMetricsGlobal {
                process_creations: 0,
                process_terminations: 0,
                total_preemptions: 0,
                fairness_violations: 0,
            }),
            r.security == security,
            r.devices == devices,
    {
        KernelState {
            tick: 0,
            fs,
            processes: ProcessRegistry::new(),
            process_metrics: ProcessMetricsGlobal::new(),
            events: EventLog::new(),
            frames: FrameRegistry::new(),
            launches: LaunchCounters::new(),
            security,
            devices,
            pipeline: ImagePipelineCounters::default(),
        }
    }
}

} // verus!
