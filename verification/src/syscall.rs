//! The syscall surface: numbered queries over the kernel state and storage
//! wrappers.

use vstd::prelude::*;
use vstd::utf8::*;
use crate::kernel_state::KernelState;
use crate::storage::{
    MemoryBlockDevice, SimpleFs, StorageError, info, is_mounted, list_files, read_file, write_file,
    delete_file, occupied_count, seeded, formatted_disk, write_outcome, written_disk, delete_outcome,
    deleted_disk, listed_paths,
};
use crate::task::process::process_count;
use crate::task::program_loader::{discovered, LoaderStatus};
use crate::frame_ownership::{allocated_count, status as frame_status};

verus! {

/// Syscall numbers.
#[derive(Debug, Clone, Copy, PartialEq, Eq, Structural)]
pub enum SyscallId {
    GetTickCount,
    GetProcessCount,
    GetTotalPreemptions,
    StorageMounted,
    StorageFileCount,
    StorageFormat,
    DeviceCount,
    BlockDeviceCount,
    ProgramCount,
    ProgramLaunchCount,
    ProgramFailedLaunchCount,
    CurrentUser,
    CurrentRole,
    DeniedAccessCount,
    DeniedExecuteCount,
    ImageCount,
    ValidImageCount,
    InvalidImageCount,
    UnsupportedExecutionCount,
    PreparedImageCount,
    RejectedLoadPlanCount,
    TotalPlannedPages,
    ExecutionBlockedCount,
    MappedImageCount,
    RejectedMappingCount,
    TotalMappedPages,
    MappedCopiedBytes,
    MappedZeroFilledBytes,
    FrameTrackedCount,
    FrameAvailableCount,
    FrameAllocatedCount,
    FrameAllocationCount,
    FrameReleaseCount,
    FrameFailedAllocationCount,
    FrameBackedImageCount,
    RejectedFrameBackingCount,
    TotalFrameBackedPages,
    UserPageTableCount,
    RejectedUserPageTableCount,
    TotalUserPageTablePages,
    UserContextCount,
    RejectedUserContextCount,
    Ring3EntryCount,
    Ring3TrapCount,
    RejectedRing3Count,
    UserSyscallCount,
    UserSyscallReturnCount,
    RejectedUserSyscallCount,
    UserElfExecutionCount,
    UserElfExitCount,
    RejectedUserElfCount,
    UserCopyProbe,
    ExitProcess,
    WaitProcess,
    ReadFileProbe,
    WriteFileProbe,
}

impl SyscallId {
    /// The syscall number of `self`.
    pub open spec fn number(self) -> u64 {
        match self {
            SyscallId::GetTickCount => 1,
            SyscallId::GetProcessCount => 2,
            SyscallId::GetTotalPreemptions => 3,
            SyscallId::StorageMounted => 4,
            SyscallId::StorageFileCount => 5,
            SyscallId::StorageFormat => 6,
            SyscallId::DeviceCount => 7,
            SyscallId::BlockDeviceCount => 8,
            SyscallId::ProgramCount => 9,
            SyscallId::ProgramLaunchCount => 10,
            SyscallId::ProgramFailedLaunchCount => 11,
            SyscallId::CurrentUser => 12,
            SyscallId::CurrentRole => 13,
            SyscallId::DeniedAccessCount => 14,
            SyscallId::DeniedExecuteCount => 15,
            SyscallId::ImageCount => 16,
            SyscallId::ValidImageCount => 17,
            SyscallId::InvalidImageCount => 18,
            SyscallId::UnsupportedExecutionCount => 19,
            SyscallId::PreparedImageCount => 20,
            SyscallId::RejectedLoadPlanCount => 21,
            SyscallId::TotalPlannedPages => 22,
            SyscallId::ExecutionBlockedCount => 23,
            SyscallId::MappedImageCount => 24,
            SyscallId::RejectedMappingCount => 25,
            SyscallId::TotalMappedPages => 26,
            SyscallId::MappedCopiedBytes => 27,
            SyscallId::MappedZeroFilledBytes => 28,
            SyscallId::FrameTrackedCount => 29,
            SyscallId::FrameAvailableCount => 30,
            SyscallId::FrameAllocatedCount => 31,
            SyscallId::FrameAllocationCount => 32,
            SyscallId::FrameReleaseCount => 33,
            SyscallId::FrameFailedAllocationCount => 34,
            SyscallId::FrameBackedImageCount => 35,
            SyscallId::RejectedFrameBackingCount => 36,
            SyscallId::TotalFrameBackedPages => 37,
            SyscallId::UserPageTableCount => 38,
            SyscallId::RejectedUserPageTableCount => 39,
            SyscallId::TotalUserPageTablePages => 40,
            SyscallId::UserContextCount => 41,
            SyscallId::RejectedUserContextCount => 42,
            SyscallId::Ring3EntryCount => 43,
            SyscallId::Ring3TrapCount => 44,
            SyscallId::RejectedRing3Count => 45,
            SyscallId::UserSyscallCount => 46,
            SyscallId::UserSyscallReturnCount => 47,
            SyscallId::RejectedUserSyscallCount => 48,
            SyscallId::UserElfExecutionCount => 49,
            SyscallId::UserElfExitCount => 50,
            SyscallId::RejectedUserElfCount => 51,
            SyscallId::UserCopyProbe => 52,
            SyscallId::ExitProcess => 53,
            SyscallId::WaitProcess => 54,
            SyscallId::ReadFileProbe => 55,
            SyscallId::WriteFileProbe => 56,
        }
    }

    pub fn as_u64(self) -> (r: u64)
        ensures
            r == self.number(),
    {
        match self {
            SyscallId::GetTickCount => 1,
            SyscallId::GetProcessCount => 2,
            SyscallId::GetTotalPreemptions => 3,
            SyscallId::StorageMounted => 4,
            SyscallId::StorageFileCount => 5,
            SyscallId::StorageFormat => 6,
            SyscallId::DeviceCount => 7,
            SyscallId::BlockDeviceCount => 8,
            SyscallId::ProgramCount => 9,
            SyscallId::ProgramLaunchCount => 10,
            SyscallId::ProgramFailedLaunchCount => 11,
            SyscallId::CurrentUser => 12,
            SyscallId::CurrentRole => 13,
            SyscallId::DeniedAccessCount => 14,
            SyscallId::DeniedExecuteCount => 15,
            SyscallId::ImageCount => 16,
            SyscallId::ValidImageCount => 17,
            SyscallId::InvalidImageCount => 18,
            SyscallId::UnsupportedExecutionCount => 19,
            SyscallId::PreparedImageCount => 20,
            SyscallId::RejectedLoadPlanCount => 21,
            SyscallId::TotalPlannedPages => 22,
            SyscallId::ExecutionBlockedCount => 23,
            SyscallId::MappedImageCount => 24,
            SyscallId::RejectedMappingCount => 25,
            SyscallId::TotalMappedPages => 26,
            SyscallId::MappedCopiedBytes => 27,
            SyscallId::MappedZeroFilledBytes => 28,
            SyscallId::FrameTrackedCount => 29,
            SyscallId::FrameAvailableCount => 30,
            SyscallId::FrameAllocatedCount => 31,
            SyscallId::FrameAllocationCount => 32,
            SyscallId::FrameReleaseCount => 33,
            SyscallId::FrameFailedAllocationCount => 34,
            SyscallId::FrameBackedImageCount => 35,
            SyscallId::RejectedFrameBackingCount => 36,
            SyscallId::TotalFrameBackedPages => 37,
            SyscallId::UserPageTableCount => 38,
            SyscallId::RejectedUserPageTableCount => 39,
            SyscallId::TotalUserPageTablePages => 40,
            SyscallId::UserContextCount => 41,
            SyscallId::RejectedUserContextCount => 42,
            SyscallId::Ring3EntryCount => 43,
            SyscallId::Ring3TrapCount => 44,
            SyscallId::RejectedRing3Count => 45,
            SyscallId::UserSyscallCount => 46,
            SyscallId::UserSyscallReturnCount => 47,
            SyscallId::RejectedUserSyscallCount => 48,
            SyscallId::UserElfExecutionCount => 49,
            SyscallId::UserElfExitCount => 50,
            SyscallId::RejectedUserElfCount => 51,
            SyscallId::UserCopyProbe => 52,
            SyscallId::ExitProcess => 53,
            SyscallId::WaitProcess => 54,
            SyscallId::ReadFileProbe => 55,
            SyscallId::WriteFileProbe => 56,
        }
    }

    /// The syscall with number `id`, if any.
    pub fn from_u64(id: u64) -> (r: Option<SyscallId>)
        ensures
            r == syscall_id_of(id),
    {
        match id {
            1 => Some(SyscallId::GetTickCount),
            2 => Some(SyscallId::GetProcessCount),
            3 => Some(SyscallId::GetTotalPreemptions),
            4 => Some(SyscallId::StorageMounted),
            5 => Some(SyscallId::StorageFileCount),
            6 => Some(SyscallId::StorageFormat),
            7 => Some(SyscallId::DeviceCount),
            8 => Some(SyscallId::BlockDeviceCount),
            9 => Some(SyscallId::ProgramCount),
            10 => Some(SyscallId::ProgramLaunchCount),
            11 => Some(SyscallId::ProgramFailedLaunchCount),
            12 => Some(SyscallId::CurrentUser),
            13 => Some(SyscallId::CurrentRole),
            14 => Some(SyscallId::DeniedAccessCount),
            15 => Some(SyscallId::DeniedExecuteCount),
            16 => Some(SyscallId::ImageCount),
            17 => Some(SyscallId::ValidImageCount),
            18 => Some(SyscallId::InvalidImageCount),
            19 => Some(SyscallId::UnsupportedExecutionCount),
            20 => Some(SyscallId::PreparedImageCount),
            21 => Some(SyscallId::RejectedLoadPlanCount),
            22 => Some(SyscallId::TotalPlannedPages),
            23 => Some(SyscallId::ExecutionBlockedCount),
            24 => Some(SyscallId::MappedImageCount),
            25 => Some(SyscallId::RejectedMappingCount),
            26 => Some(SyscallId::TotalMappedPages),
            27 => Some(SyscallId::MappedCopiedBytes),
            28 => Some(SyscallId::MappedZeroFilledBytes),
            29 => Some(SyscallId::FrameTrackedCount),
            30 => Some(SyscallId::FrameAvailableCount),
            31 => Some(SyscallId::FrameAllocatedCount),
            32 => Some(SyscallId::FrameAllocationCount),
            33 => Some(SyscallId::FrameReleaseCount),
            34 => Some(SyscallId::FrameFailedAllocationCount),
            35 => Some(SyscallId::FrameBackedImageCount),
            36 => Some(SyscallId::RejectedFrameBackingCount),
            37 => Some(SyscallId::TotalFrameBackedPages),
            38 => Some(SyscallId::UserPageTableCount),
            39 => Some(SyscallId::RejectedUserPageTableCount),
            40 => Some(SyscallId::TotalUserPageTablePages),
            41 => Some(SyscallId::UserContextCount),
            42 => Some(SyscallId::RejectedUserContextCount),
            43 => Some(SyscallId::Ring3EntryCount),
            44 => Some(SyscallId::Ring3TrapCount),
            45 => Some(SyscallId::RejectedRing3Count),
            46 => Some(SyscallId::UserSyscallCount),
            47 => Some(SyscallId::UserSyscallReturnCount),
            48 => Some(SyscallId::RejectedUserSyscallCount),
            49 => Some(SyscallId::UserElfExecutionCount),
            50 => Some(SyscallId::UserElfExitCount),
            51 => Some(SyscallId::RejectedUserElfCount),
            52 => Some(SyscallId::UserCopyProbe),
            53 => Some(SyscallId::ExitProcess),
            54 => Some(SyscallId::WaitProcess),
            55 => Some(SyscallId::ReadFileProbe),
            56 => Some(SyscallId::WriteFileProbe),
            _ => None,
        }
    }
}

/// The syscall numbered `id`, if any.
pub open spec fn syscall_id_of(id: u64) -> Option<SyscallId> {
    if id == 1 {
        Some(SyscallId::GetTickCount)
    } else if id == 2 {
        Some(SyscallId::GetProcessCount)
    } else if id == 3 {
        Some(SyscallId::GetTotalPreemptions)
    } else if id == 4 {
        Some(SyscallId::StorageMounted)
    } else if id == 5 {
        Some(SyscallId::StorageFileCount)
    } else if id == 6 {
        Some(SyscallId::StorageFormat)
    } else if id == 7 {
        Some(SyscallId::DeviceCount)
    } else if id == 8 {
        Some(SyscallId::BlockDeviceCount)
    } else if id == 9 {
        Some(SyscallId::ProgramCount)
    } else if id == 10 {
        Some(SyscallId::ProgramLaunchCount)
    } else if id == 11 {
        Some(SyscallId::ProgramFailedLaunchCount)
    } else if id == 12 {
        Some(SyscallId::CurrentUser)
    } else if id == 13 {
        Some(SyscallId::CurrentRole)
    } else if id == 14 {
        Some(SyscallId::DeniedAccessCount)
    } else if id == 15 {
        Some(SyscallId::DeniedExecuteCount)
    } else if id == 16 {
        Some(SyscallId::ImageCount)
    } else if id == 17 {
        Some(SyscallId::ValidImageCount)
    } else if id == 18 {
        Some(SyscallId::InvalidImageCount)
    } else if id == 19 {
        Some(SyscallId::UnsupportedExecutionCount)
    } else if id == 20 {
        Some(SyscallId::PreparedImageCount)
    } else if id == 21 {
        Some(SyscallId::RejectedLoadPlanCount)
    } else if id == 22 {
        Some(SyscallId::TotalPlannedPages)
    } else if id == 23 {
        Some(SyscallId::ExecutionBlockedCount)
    } else if id == 24 {
        Some(SyscallId::MappedImageCount)
    } else if id == 25 {
        Some(SyscallId::RejectedMappingCount)
    } else if id == 26 {
        Some(SyscallId::TotalMappedPages)
    } else if id == 27 {
        Some(SyscallId::MappedCopiedBytes)
    } else if id == 28 {
        Some(SyscallId::MappedZeroFilledBytes)
    } else if id == 29 {
        Some(SyscallId::FrameTrackedCount)
    } else if id == 30 {
        Some(SyscallId::FrameAvailableCount)
    } else if id == 31 {
        Some(SyscallId::FrameAllocatedCount)
    } else if id == 32 {
        Some(SyscallId::FrameAllocationCount)
    } else if id == 33 {
        Some(SyscallId::FrameReleaseCount)
    } else if id == 34 {
        Some(SyscallId::FrameFailedAllocationCount)
    } else if id == 35 {
        Some(SyscallId::FrameBackedImageCount)
    } else if id == 36 {
        Some(SyscallId::RejectedFrameBackingCount)
    } else if id == 37 {
        Some(SyscallId::TotalFrameBackedPages)
    } else if id == 38 {
        Some(SyscallId::UserPageTableCount)
    } else if id == 39 {
        Some(SyscallId::RejectedUserPageTableCount)
    } else if id == 40 {
        Some(SyscallId::TotalUserPageTablePages)
    } else if id == 41 {
        Some(SyscallId::UserContextCount)
    } else if id == 42 {
        Some(SyscallId::RejectedUserContextCount)
    } else if id == 43 {
        Some(SyscallId::Ring3EntryCount)
    } else if id == 44 {
        Some(SyscallId::Ring3TrapCount)
    } else if id == 45 {
        Some(SyscallId::RejectedRing3Count)
    } else if id == 46 {
        Some(SyscallId::UserSyscallCount)
    } else if id == 47 {
        Some(SyscallId::UserSyscallReturnCount)
    } else if id == 48 {
        Some(SyscallId::RejectedUserSyscallCount)
    } else if id == 49 {
        Some(SyscallId::UserElfExecutionCount)
    } else if id == 50 {
        Some(SyscallId::UserElfExitCount)
    } else if id == 51 {
        Some(SyscallId::RejectedUserElfCount)
    } else if id == 52 {
        Some(SyscallId::UserCopyProbe)
    } else if id == 53 {
        Some(SyscallId::ExitProcess)
    } else if id == 54 {
        Some(SyscallId::WaitProcess)
    } else if id == 55 {
        Some(SyscallId::ReadFileProbe)
    } else if id == 56 {
        Some(SyscallId::WriteFileProbe)
    } else {
        None
    }
}

/// Whether the syscall layer serves `s` (the last five numbers are reserved for the
/// hardware syscall path and are refused here).
pub open spec fn served(s: SyscallId) -> bool {
    s.number() <= 51
}

#[derive(Debug, Clone, Copy, PartialEq, Eq, Structural)]
pub enum SyscallError {
    InvalidSyscall,
    InvalidArgument,
    Storage,
}

/// What `StorageFileCount` answers.
pub open spec fn file_count_result(fs: SimpleFs<MemoryBlockDevice>) -> Result<u64, SyscallError> {
    if !fs.mounted() {
        Ok(0)
    } else {
        match fs.spec_directory() {
            Ok(es) => Ok(occupied_count(es) as usize as u64),
            Err(_) => Err(SyscallError::Storage),
        }
    }
}

/// What a served, read-only syscall answers on kernel state `k`.
pub open spec fn query_result(k: KernelState, s: SyscallId) -> Result<u64, SyscallError> {
    match s {
        SyscallId::GetTickCount => Ok(k.tick),
        SyscallId::GetProcessCount => Ok(k.processes.procs().len() as u64),
        SyscallId::GetTotalPreemptions => Ok(k.process_metrics.total_preemptions),
        SyscallId::StorageMounted => Ok(if k.fs.mounted() { 1u64 } else { 0u64 }),
        SyscallId::StorageFileCount => file_count_result(k.fs),
        SyscallId::DeviceCount => Ok(k.devices.device_total as u64),
        SyscallId::BlockDeviceCount => Ok(k.devices.block_device_count as u64),
        SyscallId::ProgramCount => Ok(discovered(k.fs).len() as usize as u64),
        SyscallId::ProgramLaunchCount => Ok(k.launches.launch_count),
        SyscallId::ProgramFailedLaunchCount => Ok(k.launches.failed_launch_count),
        SyscallId::CurrentUser => Ok(k.security.current_user),
        SyscallId::CurrentRole => Ok(k.security.current_role),
        SyscallId::DeniedAccessCount => Ok(k.security.denied_access_count),
        SyscallId::DeniedExecuteCount => Ok(k.security.denied_execute_count),
        SyscallId::ImageCount => Ok(k.pipeline.image_count as u64),
        SyscallId::ValidImageCount => Ok(k.pipeline.valid_image_count as u64),
        SyscallId::InvalidImageCount => Ok(k.pipeline.invalid_image_count as u64),
        SyscallId::UnsupportedExecutionCount => Ok(k.pipeline.unsupported_execution_count),
        SyscallId::PreparedImageCount => Ok(k.pipeline.prepared_image_count),
        SyscallId::RejectedLoadPlanCount => Ok(k.pipeline.rejected_load_plan_count),
        SyscallId::TotalPlannedPages => Ok(k.pipeline.total_planned_pages),
        SyscallId::ExecutionBlockedCount => Ok(k.pipeline.unsupported_execution_count),
        SyscallId::MappedImageCount => Ok(k.pipeline.mapped_image_count),
        SyscallId::RejectedMappingCount => Ok(k.pipeline.rejected_mapping_count),
        SyscallId::TotalMappedPages => Ok(k.pipeline.total_mapped_pages),
        SyscallId::MappedCopiedBytes => Ok(k.pipeline.copied_bytes),
        SyscallId::MappedZeroFilledBytes => Ok(k.pipeline.zero_filled_bytes),
        SyscallId::FrameTrackedCount => Ok(k.frames.records().len() as usize as u64),
        SyscallId::FrameAvailableCount => Ok((k.frames.records().len() - allocated_count(k.frames.records())) as usize as u64),
        SyscallId::FrameAllocatedCount => Ok(allocated_count(k.frames.records()) as usize as u64),
        SyscallId::FrameAllocationCount => Ok(k.frames.allocations()),
        SyscallId::FrameReleaseCount => Ok(k.frames.releases()),
        SyscallId::FrameFailedAllocationCount => Ok(k.frames.failed_allocations()),
        SyscallId::FrameBackedImageCount => Ok(k.pipeline.frame_backed_image_count),
        SyscallId::RejectedFrameBackingCount => Ok(k.pipeline.rejected_frame_backing_count),
        SyscallId::TotalFrameBackedPages => Ok(k.pipeline.total_frame_backed_pages),
        SyscallId::UserPageTableCount => Ok(k.pipeline.user_page_table_count),
        SyscallId::RejectedUserPageTableCount => Ok(k.pipeline.rejected_user_page_table_count),
        SyscallId::TotalUserPageTablePages => Ok(k.pipeline.total_user_page_table_pages),
        SyscallId::UserContextCount => Ok(k.pipeline.user_context_count),
        SyscallId::RejectedUserContextCount => Ok(k.pipeline.rejected_user_context_count),
        SyscallId::Ring3EntryCount => Ok(k.pipeline.ring3_entry_count),
        SyscallId::Ring3TrapCount => Ok(k.pipeline.ring3_trap_count),
        SyscallId::RejectedRing3Count => Ok(k.pipeline.rejected_ring3_count),
        SyscallId::UserSyscallCount => Ok(k.pipeline.user_syscall_count),
        SyscallId::UserSyscallReturnCount => Ok(k.pipeline.user_syscall_return_count),
        SyscallId::RejectedUserSyscallCount => Ok(k.pipeline.rejected_user_syscall_count),
        SyscallId::UserElfExecutionCount => Ok(k.pipeline.user_elf_execution_count),
        SyscallId::UserElfExitCount => Ok(k.pipeline.user_elf_exit_count),
        SyscallId::RejectedUserElfCount => Ok(k.pipeline.rejected_user_elf_count),
        _ => Err(SyscallError::InvalidSyscall),
    }
}

/// What each counter syscall answers, by number: the syscall with that number is
/// served, and with argument 0 it answers the counter it names, read from the
/// kernel state (`invoke_raw` returns exactly this answer and changes nothing).
pub proof fn law_counter_syscalls(k: KernelState)
    ensures
        syscall_id_of(1) == Some(SyscallId::GetTickCount) && served(SyscallId::GetTickCount)
            && query_result(k, SyscallId::GetTickCount) == Ok::<u64, SyscallError>(k.tick),
        syscall_id_of(2) == Some(SyscallId::GetProcessCount) && served(SyscallId::GetProcessCount)
            && query_result(k, SyscallId::GetProcessCount) == Ok::<u64, SyscallError>(k.processes.procs().len() as u64),
        syscall_id_of(3) == Some(SyscallId::GetTotalPreemptions) && served(SyscallId::GetTotalPreemptions)
            && query_result(k, SyscallId::GetTotalPreemptions) == Ok::<u64, SyscallError>(k.process_metrics.total_preemptions),
        syscall_id_of(4) == Some(SyscallId::StorageMounted) && served(SyscallId::StorageMounted)
            && query_result(k, SyscallId::StorageMounted) == Ok::<u64, SyscallError>(if k.fs.mounted() { 1u64 } else { 0u64 }),
        syscall_id_of(7) == Some(SyscallId::DeviceCount) && served(SyscallId::DeviceCount)
            && query_result(k, SyscallId::DeviceCount) == Ok::<u64, SyscallError>(k.devices.device_total as u64),
        syscall_id_of(8) == Some(SyscallId::BlockDeviceCount) && served(SyscallId::BlockDeviceCount)
            && query_result(k, SyscallId::BlockDeviceCount) == Ok::<u64, SyscallError>(k.devices.block_device_count as u64),
        syscall_id_of(9) == Some(SyscallId::ProgramCount) && served(SyscallId::ProgramCount)
            && query_result(k, SyscallId::ProgramCount) == Ok::<u64, SyscallError>(discovered(k.fs).len() as usize as u64),
        syscall_id_of(10) == Some(SyscallId::ProgramLaunchCount) && served(SyscallId::ProgramLaunchCount)
            && query_result(k, SyscallId::ProgramLaunchCount) == Ok::<u64, SyscallError>(k.launches.launch_count),
        syscall_id_of(11) == Some(SyscallId::ProgramFailedLaunchCount) && served(SyscallId::ProgramFailedLaunchCount)
            && query_result(k, SyscallId::ProgramFailedLaunchCount) == Ok::<u64, SyscallError>(k.launches.failed_launch_count),
        syscall_id_of(12) == Some(SyscallId::CurrentUser) && served(SyscallId::CurrentUser)
            && query_result(k, SyscallId::CurrentUser) == Ok::<u64, SyscallError>(k.security.current_user),
        syscall_id_of(13) == Some(SyscallId::CurrentRole) && served(SyscallId::CurrentRole)
            && query_result(k, SyscallId::CurrentRole) == Ok::<u64, SyscallError>(k.security.current_role),
        syscall_id_of(14) == Some(SyscallId::DeniedAccessCount) && served(SyscallId::DeniedAccessCount)
            && query_result(k, SyscallId::DeniedAccessCount) == Ok::<u64, SyscallError>(k.security.denied_access_count),
        syscall_id_of(15) == Some(SyscallId::DeniedExecuteCount) && served(SyscallId::DeniedExecuteCount)
            && query_result(k, SyscallId::DeniedExecuteCount) == Ok::<u64, SyscallError>(k.security.denied_execute_count),
        syscall_id_of(16) == Some(SyscallId::ImageCount) && served(SyscallId::ImageCount)
            && query_result(k, SyscallId::ImageCount) == Ok::<u64, SyscallError>(k.pipeline.image_count as u64),
        syscall_id_of(17) == Some(SyscallId::ValidImageCount) && served(SyscallId::ValidImageCount)
            && query_result(k, SyscallId::ValidImageCount) == Ok::<u64, SyscallError>(k.pipeline.valid_image_count as u64),
        syscall_id_of(18) == Some(SyscallId::InvalidImageCount) && served(SyscallId::InvalidImageCount)
            && query_result(k, SyscallId::InvalidImageCount) == Ok::<u64, SyscallError>(k.pipeline.invalid_image_count as u64),
        syscall_id_of(19) == Some(SyscallId::UnsupportedExecutionCount) && served(SyscallId::UnsupportedExecutionCount)
            && query_result(k, SyscallId::UnsupportedExecutionCount) == Ok::<u64, SyscallError>(k.pipeline.unsupported_execution_count),
        syscall_id_of(20) == Some(SyscallId::PreparedImageCount) && served(SyscallId::PreparedImageCount)
            && query_result(k, SyscallId::PreparedImageCount) == Ok::<u64, SyscallError>(k.pipeline.prepared_image_count),
        syscall_id_of(21) == Some(SyscallId::RejectedLoadPlanCount) && served(SyscallId::RejectedLoadPlanCount)
            && query_result(k, SyscallId::RejectedLoadPlanCount) == Ok::<u64, SyscallError>(k.pipeline.rejected_load_plan_count),
        syscall_id_of(22) == Some(SyscallId::TotalPlannedPages) && served(SyscallId::TotalPlannedPages)
            && query_result(k, SyscallId::TotalPlannedPages) == Ok::<u64, SyscallError>(k.pipeline.total_planned_pages),
        syscall_id_of(23) == Some(SyscallId::ExecutionBlockedCount) && served(SyscallId::ExecutionBlockedCount)
            && query_result(k, SyscallId::ExecutionBlockedCount) == Ok::<u64, SyscallError>(k.pipeline.unsupported_execution_count),
        syscall_id_of(24) == Some(SyscallId::MappedImageCount) && served(SyscallId::MappedImageCount)
            && query_result(k, SyscallId::MappedImageCount) == Ok::<u64, SyscallError>(k.pipeline.mapped_image_count),
        syscall_id_of(25) == Some(SyscallId::RejectedMappingCount) && served(SyscallId::RejectedMappingCount)
            && query_result(k, SyscallId::RejectedMappingCount) == Ok::<u64, SyscallError>(k.pipeline.rejected_mapping_count),
        syscall_id_of(26) == Some(SyscallId::TotalMappedPages) && served(SyscallId::TotalMappedPages)
            && query_result(k, SyscallId::TotalMappedPages) == Ok::<u64, SyscallError>(k.pipeline.total_mapped_pages),
        syscall_id_of(27) == Some(SyscallId::MappedCopiedBytes) && served(SyscallId::MappedCopiedBytes)
            && query_result(k, SyscallId::MappedCopiedBytes) == Ok::<u64, SyscallError>(k.pipeline.copied_bytes),
        syscall_id_of(28) == Some(SyscallId::MappedZeroFilledBytes) && served(SyscallId::MappedZeroFilledBytes)
            && query_result(k, SyscallId::MappedZeroFilledBytes) == Ok::<u64, SyscallError>(k.pipeline.zero_filled_bytes),
        syscall_id_of(29) == Some(SyscallId::FrameTrackedCount) && served(SyscallId::FrameTrackedCount)
            && query_result(k, SyscallId::FrameTrackedCount) == Ok::<u64, SyscallError>(k.frames.records().len() as usize as u64),
        syscall_id_of(30) == Some(SyscallId::FrameAvailableCount) && served(SyscallId::FrameAvailableCount)
            && query_result(k, SyscallId::FrameAvailableCount) == Ok::<u64, SyscallError>((k.frames.records().len() - allocated_count(k.frames.records())) as usize as u64),
        syscall_id_of(31) == Some(SyscallId::FrameAllocatedCount) && served(SyscallId::FrameAllocatedCount)
            && query_result(k, SyscallId::FrameAllocatedCount) == Ok::<u64, SyscallError>(allocated_count(k.frames.records()) as usize as u64),
        syscall_id_of(32) == Some(SyscallId::FrameAllocationCount) && served(SyscallId::FrameAllocationCount)
            && query_result(k, SyscallId::FrameAllocationCount) == Ok::<u64, SyscallError>(k.frames.allocations()),
        syscall_id_of(33) == Some(SyscallId::FrameReleaseCount) && served(SyscallId::FrameReleaseCount)
            && query_result(k, SyscallId::FrameReleaseCount) == Ok::<u64, SyscallError>(k.frames.releases()),
        syscall_id_of(34) == Some(SyscallId::FrameFailedAllocationCount) && served(SyscallId::FrameFailedAllocationCount)
            && query_result(k, SyscallId::FrameFailedAllocationCount) == Ok::<u64, SyscallError>(k.frames.failed_allocations()),
        syscall_id_of(35) == Some(SyscallId::FrameBackedImageCount) && served(SyscallId::FrameBackedImageCount)
            && query_result(k, SyscallId::FrameBackedImageCount) == Ok::<u64, SyscallError>(k.pipeline.frame_backed_image_count),
        syscall_id_of(36) == Some(SyscallId::RejectedFrameBackingCount) && served(SyscallId::RejectedFrameBackingCount)
            && query_result(k, SyscallId::RejectedFrameBackingCount) == Ok::<u64, SyscallError>(k.pipeline.rejected_frame_backing_count),
        syscall_id_of(37) == Some(SyscallId::TotalFrameBackedPages) && served(SyscallId::TotalFrameBackedPages)
            && query_result(k, SyscallId::TotalFrameBackedPages) == Ok::<u64, SyscallError>(k.pipeline.total_frame_backed_pages),
        syscall_id_of(38) == Some(SyscallId::UserPageTableCount) && served(SyscallId::UserPageTableCount)
            && query_result(k, SyscallId::UserPageTableCount) == Ok::<u64, SyscallError>(k.pipeline.user_page_table_count),
        syscall_id_of(39) == Some(SyscallId::RejectedUserPageTableCount) && served(SyscallId::RejectedUserPageTableCount)
            && query_result(k, SyscallId::RejectedUserPageTableCount) == Ok::<u64, SyscallError>(k.pipeline.rejected_user_page_table_count),
        syscall_id_of(40) == Some(SyscallId::TotalUserPageTablePages) && served(SyscallId::TotalUserPageTablePages)
            && query_result(k, SyscallId::TotalUserPageTablePages) == Ok::<u64, SyscallError>(k.pipeline.total_user_page_table_pages),
        syscall_id_of(41) == Some(SyscallId::UserContextCount) && served(SyscallId::UserContextCount)
            && query_result(k, SyscallId::UserContextCount) == Ok::<u64, SyscallError>(k.pipeline.user_context_count),
        syscall_id_of(42) == Some(SyscallId::RejectedUserContextCount) && served(SyscallId::RejectedUserContextCount)
            && query_result(k, SyscallId::RejectedUserContextCount) == Ok::<u64, SyscallError>(k.pipeline.rejected_user_context_count),
        syscall_id_of(43) == Some(SyscallId::Ring3EntryCount) && served(SyscallId::Ring3EntryCount)
            && query_result(k, SyscallId::Ring3EntryCount) == Ok::<u64, SyscallError>(k.pipeline.ring3_entry_count),
        syscall_id_of(44) == Some(SyscallId::Ring3TrapCount) && served(SyscallId::Ring3TrapCount)
            && query_result(k, SyscallId::Ring3TrapCount) == Ok::<u64, SyscallError>(k.pipeline.ring3_trap_count),
        syscall_id_of(45) == Some(SyscallId::RejectedRing3Count) && served(SyscallId::RejectedRing3Count)
            && query_result(k, SyscallId::RejectedRing3Count) == Ok::<u64, SyscallError>(k.pipeline.rejected_ring3_count),
        syscall_id_of(46) == Some(SyscallId::UserSyscallCount) && served(SyscallId::UserSyscallCount)
            && query_result(k, SyscallId::UserSyscallCount) == Ok::<u64, SyscallError>(k.pipeline.user_syscall_count),
        syscall_id_of(47) == Some(SyscallId::UserSyscallReturnCount) && served(SyscallId::UserSyscallReturnCount)
            && query_result(k, SyscallId::UserSyscallReturnCount) == Ok::<u64, SyscallError>(k.pipeline.user_syscall_return_count),
        syscall_id_of(48) == Some(SyscallId::RejectedUserSyscallCount) && served(SyscallId::RejectedUserSyscallCount)
            && query_result(k, SyscallId::RejectedUserSyscallCount) == Ok::<u64, SyscallError>(k.pipeline.rejected_user_syscall_count),
        syscall_id_of(49) == Some(SyscallId::UserElfExecutionCount) && served(SyscallId::UserElfExecutionCount)
            && query_result(k, SyscallId::UserElfExecutionCount) == Ok::<u64, SyscallError>(k.pipeline.user_elf_execution_count),
        syscall_id_of(50) == Some(SyscallId::UserElfExitCount) && served(SyscallId::UserElfExitCount)
            && query_result(k, SyscallId::UserElfExitCount) == Ok::<u64, SyscallError>(k.pipeline.user_elf_exit_count),
        syscall_id_of(51) == Some(SyscallId::RejectedUserElfCount) && served(SyscallId::RejectedUserElfCount)
            && query_result(k, SyscallId::RejectedUserElfCount) == Ok::<u64, SyscallError>(k.pipeline.rejected_user_elf_count),
{
}

/// What the `StorageFormat` syscall answers on state `k`: 0 once the device is
/// formatted and the bootstrap files are seeded, `Storage` when either fails.
pub open spec fn format_result(k: KernelState) -> Result<u64, SyscallError> {
    let n = k.fs.disk().len();
    if n == 0 {
        Err(SyscallError::Storage)
    } else if seeded(true, formatted_disk(n), 5).0 is Ok {
        Ok(0)
    } else {
        Err(SyscallError::Storage)
    }
}

/// The state after the `StorageFormat` syscall on `k0`: only the filesystem changes;
/// a device without sectors stays as it was, any other is formatted, mounted and
/// seeded.
pub open spec fn formatted_state(k0: KernelState, k1: KernelState) -> bool {
    let n = k0.fs.disk().len();
    &&& k1 == (KernelState { fs: k1.fs, ..k0 })
    &&& n == 0 ==> k1.fs.disk() == k0.fs.disk() && k1.fs.mounted() == k0.fs.mounted()
    &&& n > 0 ==> k1.fs.mounted() && k1.fs.disk() == seeded(true, formatted_disk(n), 5).1
}

/// Invokes syscall `id` with argument `arg0`. Unknown numbers are refused, every
/// served syscall takes no argument (`arg0` must be 0), and only `StorageFormat`
/// changes the state: it formats and reseeds the filesystem.
pub fn invoke_raw(k: &mut KernelState, id: u64, arg0: u64) -> (r: Result<u64, SyscallError>)
    requires
        old(k).wf(),
    ensures
        final(k).wf(),
        match syscall_id_of(id) {
            Some(s) if served(s) => if arg0 != 0 {
                r == Err::<u64, SyscallError>(SyscallError::InvalidArgument) && *final(k) == *old(k)
            } else if s is StorageFormat {
                r == format_result(*old(k)) && formatted_state(*old(k), *final(k))
            } else {
                r == query_result(*old(k), s) && *final(k) == *old(k)
            },
            _ => r == Err::<u64, SyscallError>(SyscallError::InvalidSyscall) && *final(k) == *old(k),
        },
{
    let s = match SyscallId::from_u64(id) {
        Some(s) => s,
        None => return Err(SyscallError::InvalidSyscall),
    };
    if s.as_u64() > 51 {
        return Err(SyscallError::InvalidSyscall);
    }
    if arg0 != 0 {
        return Err(SyscallError::InvalidArgument);
    }
    match s {
        SyscallId::StorageFormat => match crate::storage::format(&mut k.fs) {
            Ok(()) => Ok(0),
            Err(_) => Err(SyscallError::Storage),
        },
        SyscallId::GetTickCount => Ok(k.tick),
        SyscallId::GetProcessCount => Ok(process_count(&k.processes) as u64),
        SyscallId::GetTotalPreemptions => {
                let (_, _, preemptions, _) = k.process_metrics.global_snapshot();
                Ok(preemptions)
            },
        SyscallId::StorageMounted => Ok(if is_mounted(&k.fs) { 1 } else { 0 }),
        SyscallId::StorageFileCount => match info(&k.fs) {
                Ok(i) => Ok(i.file_count as u64),
                Err(_) => Err(SyscallError::Storage),
            },
        SyscallId::DeviceCount => Ok(k.devices.device_total as u64),
        SyscallId::BlockDeviceCount => Ok(k.devices.block_device_count as u64),
        SyscallId::ProgramCount => Ok(crate::task::program_loader::status(&k.fs, &k.launches).program_count as u64),
        SyscallId::ProgramLaunchCount => Ok(k.launches.launch_count),
        SyscallId::ProgramFailedLaunchCount => Ok(k.launches.failed_launch_count),
        SyscallId::CurrentUser => Ok(k.security.current_user),
        SyscallId::CurrentRole => Ok(k.security.current_role),
        SyscallId::DeniedAccessCount => Ok(k.security.denied_access_count),
        SyscallId::DeniedExecuteCount => Ok(k.security.denied_execute_count),
        SyscallId::ImageCount => Ok(k.pipeline.image_count as u64),
        SyscallId::ValidImageCount => Ok(k.pipeline.valid_image_count as u64),
        SyscallId::InvalidImageCount => Ok(k.pipeline.invalid_image_count as u64),
        SyscallId::UnsupportedExecutionCount => Ok(k.pipeline.unsupported_execution_count),
        SyscallId::PreparedImageCount => Ok(k.pipeline.prepared_image_count),
        SyscallId::RejectedLoadPlanCount => Ok(k.pipeline.rejected_load_plan_count),
        SyscallId::TotalPlannedPages => Ok(k.pipeline.total_planned_pages),
        SyscallId::ExecutionBlockedCount => Ok(k.pipeline.unsupported_execution_count),
        SyscallId::MappedImageCount => Ok(k.pipeline.mapped_image_count),
        SyscallId::RejectedMappingCount => Ok(k.pipeline.rejected_mapping_count),
        SyscallId::TotalMappedPages => Ok(k.pipeline.total_mapped_pages),
        SyscallId::MappedCopiedBytes => Ok(k.pipeline.copied_bytes),
        SyscallId::MappedZeroFilledBytes => Ok(k.pipeline.zero_filled_bytes),
        SyscallId::FrameTrackedCount => {
                let fs_ = frame_status(&k.frames);
                Ok(fs_.tracked_frames as u64)
            },
        SyscallId::FrameAvailableCount => {
                let fs_ = frame_status(&k.frames);
                Ok(fs_.available_frames as u64)
            },
        SyscallId::FrameAllocatedCount => {
                let fs_ = frame_status(&k.frames);
                Ok(fs_.allocated_frames as u64)
            },
        SyscallId::FrameAllocationCount => {
                let fs_ = frame_status(&k.frames);
                Ok(fs_.allocation_count)
            },
        SyscallId::FrameReleaseCount => {
                let fs_ = frame_status(&k.frames);
                Ok(fs_.release_count)
            },
        SyscallId::FrameFailedAllocationCount => {
                let fs_ = frame_status(&k.frames);
                Ok(fs_.failed_allocation_count)
            },
        SyscallId::FrameBackedImageCount => Ok(k.pipeline.frame_backed_image_count),
        SyscallId::RejectedFrameBackingCount => Ok(k.pipeline.rejected_frame_backing_count),
        SyscallId::TotalFrameBackedPages => Ok(k.pipeline.total_frame_backed_pages),
        SyscallId::UserPageTableCount => Ok(k.pipeline.user_page_table_count),
        SyscallId::RejectedUserPageTableCount => Ok(k.pipeline.rejected_user_page_table_count),
        SyscallId::TotalUserPageTablePages => Ok(k.pipeline.total_user_page_table_pages),
        SyscallId::UserContextCount => Ok(k.pipeline.user_context_count),
        SyscallId::RejectedUserContextCount => Ok(k.pipeline.rejected_user_context_count),
        SyscallId::Ring3EntryCount => Ok(k.pipeline.ring3_entry_count),
        SyscallId::Ring3TrapCount => Ok(k.pipeline.ring3_trap_count),
        SyscallId::RejectedRing3Count => Ok(k.pipeline.rejected_ring3_count),
        SyscallId::UserSyscallCount => Ok(k.pipeline.user_syscall_count),
        SyscallId::UserSyscallReturnCount => Ok(k.pipeline.user_syscall_return_count),
        SyscallId::RejectedUserSyscallCount => Ok(k.pipeline.rejected_user_syscall_count),
        SyscallId::UserElfExecutionCount => Ok(k.pipeline.user_elf_execution_count),
        SyscallId::UserElfExitCount => Ok(k.pipeline.user_elf_exit_count),
        SyscallId::RejectedUserElfCount => Ok(k.pipeline.rejected_user_elf_count),
        _ => Err(SyscallError::InvalidSyscall),
    }
}

/// The stored file paths.
pub fn storage_list_files(k: &KernelState) -> (r: Result<Vec<String>, SyscallError>)
    ensures
        match k.fs.spec_directory() {
            Ok(es) => r is Ok && r->Ok_0@.map_values(|s: String| encode_utf8(s@)) == listed_paths(es),
            Err(_) => r == Err::<Vec<String>, SyscallError>(SyscallError::Storage),
        },
{
    match list_files(&k.fs) {
        Ok(files) => Ok(files),
        Err(_) => Err(SyscallError::Storage),
    }
}

/// The contents of the file at `path`, `None` when there is none.
pub fn storage_read_file(k: &KernelState, path: &str) -> (r: Result<Option<String>, SyscallError>)
    ensures
        match k.fs.spec_read_file(encode_utf8(path@)) {
            Ok(Some(data)) => r matches Ok(Some(s)) && encode_utf8(s@) == data,
            Ok(None) => r == Ok::<Option<String>, SyscallError>(None),
            Err(_) => r == Err::<Option<String>, SyscallError>(SyscallError::Storage),
        },
{
    match read_file(&k.fs, path) {
        Ok(contents) => Ok(contents),
        Err(_) => Err(SyscallError::Storage),
    }
}

/// Creates or replaces the file at `path`.
pub fn storage_write_file(k: &mut KernelState, path: &str, contents: &str) -> (r: Result<(), SyscallError>)
    ensures
        *final(k) == (KernelState { fs: final(k).fs, ..*old(k) }),
        final(k).fs.mounted() == old(k).fs.mounted(),
        match write_outcome(old(k).fs.mounted(), old(k).fs.disk(), encode_utf8(path@), encode_utf8(contents@), true) {
            Ok(()) => r == Ok::<(), SyscallError>(()) && final(k).fs.disk() == written_disk(
                old(k).fs.disk(),
                old(k).fs.spec_directory()->Ok_0,
                encode_utf8(path@),
                encode_utf8(contents@),
            ),
            Err(_) => r == Err::<(), SyscallError>(SyscallError::Storage) && final(k).fs.disk() == old(k).fs.disk(),
        },
{
    match write_file(&mut k.fs, path, contents) {
        Ok(()) => Ok(()),
        Err(_) => Err(SyscallError::Storage),
    }
}

/// Removes the file at `path`.
pub fn storage_delete_file(k: &mut KernelState, path: &str) -> (r: Result<(), SyscallError>)
    ensures
        *final(k) == (KernelState { fs: final(k).fs, ..*old(k) }),
        final(k).fs.mounted() == old(k).fs.mounted(),
        match delete_outcome(old(k).fs.mounted(), old(k).fs.disk(), encode_utf8(path@)) {
            Ok(()) => r == Ok::<(), SyscallError>(()) && final(k).fs.disk() == deleted_disk(
                old(k).fs.disk(),
                old(k).fs.spec_directory()->Ok_0,
                encode_utf8(path@),
            ),
            Err(_) => r == Err::<(), SyscallError>(SyscallError::Storage) && final(k).fs.disk() == old(k).fs.disk(),
        },
{
    match delete_file(&mut k.fs, path) {
        Ok(()) => Ok(()),
        Err(_) => Err(SyscallError::Storage),
    }
}

/// Numbers of registered devices.
pub fn device_summary(k: &KernelState) -> (r: crate::kernel_state::DeviceCounts)
    ensures
        r == k.devices,
{
    k.devices
}

/// The program loader's status.
pub fn loader_status(k: &KernelState) -> (r: LoaderStatus)
    ensures
        r == (LoaderStatus {
            program_count: discovered(k.fs).len() as usize,
            launch_count: k.launches.launch_count,
            failed_launch_count: k.launches.failed_launch_count,
        }),
{
    crate::task::program_loader::status(&k.fs, &k.launches)
}

} // verus!
