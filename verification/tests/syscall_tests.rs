use kernel::kernel_state::{DeviceCounts, KernelState, SecuritySnapshot};
use kernel::storage::{init, new_kernel_storage, read_file};
use kernel::syscall::{
    device_summary, invoke_raw, loader_status, storage_delete_file, storage_list_files, storage_read_file,
    storage_write_file, SyscallError, SyscallId,
};
use kernel::user_syscall::{
    dispatch_from_user, finish_copy_probe, last_hw_syscall_return, store_hw_syscall_return, tick_probe_frame,
    HwReturnSlot, UserDispatch, UserRegisterFrame, UserSyscallAbiError, UserSyscallReturn,
};
use kernel::user_syscall_hw::{
    dispatch_table_status, finish_hw_copy_probe, handle_hw_syscall, is_allowed_hw_syscall, mark_dispatch_table_ready,
    record_hw_syscall_completed, status, HwSyscallCounters,
};

fn kernel_state() -> KernelState {
    let mut fs = new_kernel_storage();
    assert_eq!(init(&mut fs), Ok(()));
    KernelState::boot(
        fs,
        SecuritySnapshot { current_user: 1000, current_role: 2, denied_access_count: 4, denied_execute_count: 5 },
        DeviceCounts { device_total: 3, block_device_count: 1 },
    )
}

#[test]
fn invalid_syscall_is_rejected() {
    let mut k = kernel_state();
    assert_eq!(invoke_raw(&mut k, 999, 0), Err(SyscallError::InvalidSyscall));
    assert_eq!(invoke_raw(&mut k, 0, 0), Err(SyscallError::InvalidSyscall));
    assert_eq!(invoke_raw(&mut k, SyscallId::UserCopyProbe.as_u64(), 1), Err(SyscallError::InvalidSyscall));
}

#[test]
fn invalid_arguments_are_rejected() {
    let mut k = kernel_state();
    assert_eq!(invoke_raw(&mut k, SyscallId::GetTickCount.as_u64(), 1), Err(SyscallError::InvalidArgument));
}

#[test]
fn storage_syscalls_report_status() {
    let mut k = kernel_state();
    assert_eq!(invoke_raw(&mut k, SyscallId::StorageMounted.as_u64(), 0), Ok(1));
    assert_eq!(invoke_raw(&mut k, SyscallId::StorageFileCount.as_u64(), 0), Ok(5));
    assert_eq!(invoke_raw(&mut k, SyscallId::DeviceCount.as_u64(), 0), Ok(3));
    assert_eq!(invoke_raw(&mut k, SyscallId::BlockDeviceCount.as_u64(), 0), Ok(1));
    assert_eq!(invoke_raw(&mut k, SyscallId::ProgramCount.as_u64(), 0), Ok(4));
}

#[test]
fn counters_are_reported() {
    let mut k = kernel_state();
    k.tick = 77;
    k.pipeline.mapped_image_count = 6;
    k.pipeline.unsupported_execution_count = 2;
    assert_eq!(invoke_raw(&mut k, 1, 0), Ok(77));
    assert_eq!(invoke_raw(&mut k, SyscallId::CurrentUser.as_u64(), 0), Ok(1000));
    assert_eq!(invoke_raw(&mut k, SyscallId::CurrentRole.as_u64(), 0), Ok(2));
    assert_eq!(invoke_raw(&mut k, SyscallId::DeniedAccessCount.as_u64(), 0), Ok(4));
    assert_eq!(invoke_raw(&mut k, SyscallId::DeniedExecuteCount.as_u64(), 0), Ok(5));
    assert_eq!(invoke_raw(&mut k, SyscallId::MappedImageCount.as_u64(), 0), Ok(6));
    assert_eq!(invoke_raw(&mut k, SyscallId::ExecutionBlockedCount.as_u64(), 0), Ok(2));
    assert_eq!(invoke_raw(&mut k, SyscallId::FrameTrackedCount.as_u64(), 0), Ok(0));
    assert_eq!(invoke_raw(&mut k, SyscallId::GetProcessCount.as_u64(), 0), Ok(0));
}

#[test]
fn syscall_numbers_round_trip() {
    for n in 1..=56u64 {
        assert_eq!(SyscallId::from_u64(n).unwrap().as_u64(), n);
    }
    assert_eq!(SyscallId::from_u64(57), None);
    assert_eq!(SyscallId::RejectedUserElfCount.as_u64(), 51);
}

#[test]
fn format_syscall_reseeds_storage() {
    let mut k = kernel_state();
    assert_eq!(storage_write_file(&mut k, "/extra", "x"), Ok(()));
    assert_eq!(invoke_raw(&mut k, SyscallId::StorageFormat.as_u64(), 0), Ok(0));
    assert_eq!(read_file(&k.fs, "/extra"), Ok(None));
    assert_eq!(invoke_raw(&mut k, SyscallId::StorageFileCount.as_u64(), 0), Ok(5));
}

#[test]
fn storage_wrappers_validate_paths() {
    let mut k = kernel_state();
    assert_eq!(storage_write_file(&mut k, "relative-path", "bad"), Err(SyscallError::Storage));
    assert_eq!(storage_write_file(&mut k, "/ok", "fine"), Ok(()));
    assert_eq!(storage_read_file(&k, "/ok"), Ok(Some(String::from("fine"))));
    assert_eq!(storage_delete_file(&mut k, "/ok"), Ok(()));
    assert_eq!(storage_delete_file(&mut k, "/ok"), Err(SyscallError::Storage));
    assert_eq!(storage_list_files(&k).unwrap().len(), 5);
    assert_eq!(device_summary(&k).device_total, 3);
    assert_eq!(loader_status(&k).program_count, 4);
}

#[test]
fn tick_probe_uses_zero_arg() {
    let frame = tick_probe_frame();
    assert_eq!(frame.syscall_id, SyscallId::GetTickCount.as_u64());
    assert_eq!(frame.arg0, 0);
}

#[test]
fn user_dispatch_maps_results_and_rejects_null_frames() {
    let mut k = kernel_state();
    k.tick = 9;
    let frame = tick_probe_frame();
    match dispatch_from_user(&mut k, frame) {
        Ok(UserDispatch::Done(ret)) => {
            assert_eq!(ret.return_value, 9);
            assert_eq!(ret.error, None);
            assert!(ret.returned_to_user);
        }
        other => panic!("unexpected {:?}", other),
    }
    let null = UserRegisterFrame { syscall_id: 0, arg0: 0, return_value: 0, error: None };
    assert_eq!(dispatch_from_user(&mut k, null), Err(UserSyscallAbiError::UserPointerRejected));
    let bad = UserRegisterFrame { syscall_id: 1, arg0: 5, return_value: 0, error: None };
    match dispatch_from_user(&mut k, bad) {
        Ok(UserDispatch::Done(ret)) => assert_eq!(ret.error, Some(SyscallError::InvalidArgument)),
        other => panic!("unexpected {:?}", other),
    }
    let probe = UserRegisterFrame { syscall_id: 52, arg0: 0x1000, return_value: 0, error: None };
    assert_eq!(dispatch_from_user(&mut k, probe), Ok(UserDispatch::CopyProbe(probe)));
    assert_eq!(finish_copy_probe(probe, true).return_value, 1);
}

#[test]
fn hw_return_slot_round_trip() {
    let mut slot = HwReturnSlot { last_id: 0, last_return: 0, last_error: 0 };
    assert_eq!(last_hw_syscall_return(&slot), None);
    let ret = UserSyscallReturn {
        syscall_id: 1,
        arg0: 3,
        return_value: 42,
        error: Some(SyscallError::Storage),
        returned_to_user: true,
    };
    store_hw_syscall_return(&mut slot, ret);
    let back = last_hw_syscall_return(&slot).unwrap();
    assert_eq!(back.return_value, 42);
    assert_eq!(back.arg0, 0);
    assert_eq!(back.error, Some(SyscallError::InvalidArgument));
}

#[test]
fn hw_syscall_allow_list() {
    assert!(is_allowed_hw_syscall(1));
    assert!(is_allowed_hw_syscall(52));
    assert!(is_allowed_hw_syscall(56));
    assert!(!is_allowed_hw_syscall(2));
    let mut k = kernel_state();
    let mut c = HwSyscallCounters { syscalls: 0, sysrets: 0, ready: false, allowed: 0, rejected: 0 };
    let mut slot = HwReturnSlot { last_id: 0, last_return: 0, last_error: 0 };
    assert_eq!(handle_hw_syscall(&mut k, &mut c, &mut slot, 2, 0), None);
    assert_eq!(dispatch_table_status(&c), (0, 1, false));
    k.tick = 11;
    assert_eq!(handle_hw_syscall(&mut k, &mut c, &mut slot, 1, 0), None);
    assert_eq!(last_hw_syscall_return(&slot).unwrap().return_value, 11);
    assert_eq!(status(&c), (2, 1));
    let pending = handle_hw_syscall(&mut k, &mut c, &mut slot, 52, 0x2000).unwrap();
    finish_hw_copy_probe(&mut c, &mut slot, pending, false);
    assert_eq!(last_hw_syscall_return(&slot).unwrap().return_value, 0);
    mark_dispatch_table_ready(&mut c);
    record_hw_syscall_completed(&mut c);
    assert_eq!(dispatch_table_status(&c), (2, 1, true));
}
