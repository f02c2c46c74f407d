use kernel::kernel_state::{DeviceCounts, KernelState, SecuritySnapshot};
use kernel::performance::process_metrics::{EventLog, ProcessMetricsGlobal};
use kernel::storage::{delete_file, init, list_files, new_kernel_storage, read_file, remount, write_file};
use kernel::syscall::{
    invoke_raw, storage_delete_file, storage_list_files, storage_read_file, storage_write_file, SyscallError,
    SyscallId,
};
use kernel::task::process::{
    add_process_cpu_ticks, create_kernel_process, get_ready_processes, process_count, reap_terminated_processes,
    record_context_switch, set_process_state, terminate_process, ProcessId, ProcessRegistry, ProcessState,
};
use kernel::task::program_loader::{parse_manifest, phase9_smoke_check, ProgramKind, ProgramLoadError};
use kernel::task::scheduler::{on_timer_tick, stats, SchedulerState, SCHED_QUANTUM_TICKS};
use kernel::task::userspace::run_program;

fn kernel_state() -> KernelState {
    let mut fs = new_kernel_storage();
    init(&mut fs).expect("storage should initialize");
    KernelState::boot(
        fs,
        SecuritySnapshot { current_user: 1000, current_role: 1, denied_access_count: 0, denied_execute_count: 0 },
        DeviceCounts { device_total: 2, block_device_count: 1 },
    )
}

#[test]
fn preemption_tick_requests_accumulate() {
    let mut s = SchedulerState::new();
    let before = stats(&s);
    for _ in 0..(SCHED_QUANTUM_TICKS * 2) {
        on_timer_tick(&mut s);
    }
    let after = stats(&s);
    assert!(after.timer_ticks >= before.timer_ticks + SCHED_QUANTUM_TICKS * 2);
    assert!(after.reschedule_requests >= before.reschedule_requests + 2);
}

#[test]
fn process_registry_lifecycle() {
    let mut registry = ProcessRegistry::new();
    let mut metrics = ProcessMetricsGlobal::new();
    let mut log = EventLog::new();
    let created_tick = 17;
    let before_count = process_count(&registry);

    let pid = create_kernel_process(&mut registry, &mut metrics, &mut log, created_tick, "phase5-proc", created_tick)
        .expect("process should be created");
    assert!(process_count(&registry) >= before_count + 1);

    assert!(set_process_state(&mut registry, pid, ProcessState::Ready));
    let ready = get_ready_processes(&registry);
    assert!(ready.iter().any(|p| *p == pid));

    assert!(add_process_cpu_ticks(&mut registry, pid, 42));
    assert!(record_context_switch(&mut registry, pid));

    assert!(terminate_process(&mut registry, &mut metrics, &mut log, 20, pid, 0));
    let reaped = reap_terminated_processes(&mut registry);
    assert!(reaped >= 1);
}

#[test]
fn syscall_invalid_paths_are_rejected() {
    let mut k = kernel_state();
    assert_eq!(invoke_raw(&mut k, 999, 0), Err(SyscallError::InvalidSyscall));
    assert_eq!(invoke_raw(&mut k, SyscallId::GetTickCount.as_u64(), 123), Err(SyscallError::InvalidArgument));
    assert_eq!(invoke_raw(&mut k, SyscallId::StorageFileCount.as_u64(), 123), Err(SyscallError::InvalidArgument));
}

#[test]
fn process_lifecycle_unknown_pid_operations_fail() {
    let mut registry = ProcessRegistry::new();
    let mut metrics = ProcessMetricsGlobal::new();
    let mut log = EventLog::new();
    let missing = ProcessId::from_raw(u64::MAX);
    assert!(!set_process_state(&mut registry, missing, ProcessState::Ready));
    assert!(!add_process_cpu_ticks(&mut registry, missing, 1));
    assert!(!record_context_switch(&mut registry, missing));
    assert!(!terminate_process(&mut registry, &mut metrics, &mut log, 0, missing, -1));
}

#[test]
fn storage_and_userspace_smoke_flow() {
    let mut k = kernel_state();
    let files = list_files(&k.fs).expect("storage should be mounted");
    assert!(!files.is_empty());
    let readme = read_file(&k.fs, "/README.txt")
        .expect("storage read should be available")
        .expect("README should exist");
    assert!(readme.contains("AresOS"));

    let output = run_program(&mut k, "echo", &["ok", "flow"]).expect("echo should run");
    assert_eq!(output, "ok flow");

    let fsinfo = run_program(&mut k, "fsinfo", &[]).expect("fsinfo should run through storage syscalls");
    assert!(fsinfo.contains("mounted=true"));
}

#[test]
fn phase7_storage_persists_across_remount() {
    let mut fs = new_kernel_storage();
    kernel::storage::format(&mut fs).expect("format should succeed");
    write_file(&mut fs, "/phase7.txt", "persistent").expect("write should succeed");
    remount(&mut fs).expect("remount should succeed");

    let contents = read_file(&fs, "/phase7.txt").expect("read should succeed").expect("file should exist after remount");
    assert_eq!(contents, "persistent");

    delete_file(&mut fs, "/phase7.txt").expect("delete should succeed");
    assert_eq!(read_file(&fs, "/phase7.txt").expect("read should succeed"), None);
}

#[test]
fn phase7_storage_syscall_wrappers_cover_file_lifecycle() {
    let mut k = kernel_state();
    kernel::storage::format(&mut k.fs).expect("format should succeed");
    storage_write_file(&mut k, "/syscall.txt", "through-syscall").expect("storage write syscall wrapper should succeed");
    assert_eq!(
        storage_read_file(&k, "/syscall.txt").expect("storage read syscall wrapper should succeed"),
        Some("through-syscall".into())
    );
    assert!(storage_list_files(&k)
        .expect("storage list syscall wrapper should succeed")
        .iter()
        .any(|path| path == "/syscall.txt"));
    storage_delete_file(&mut k, "/syscall.txt").expect("storage delete syscall wrapper should succeed");
    assert_eq!(storage_read_file(&k, "/syscall.txt").expect("storage read syscall wrapper should succeed"), None);
}

#[test]
fn phase9_program_manifest_parser_rejects_invalid_records() {
    let valid = parse_manifest("ares-exec-v1\nname=echo\nkind=builtin-alias\nentry=echo\ndescription=Echo text")
        .expect("valid manifest should parse");
    assert_eq!(valid.name, "echo");
    assert_eq!(valid.kind, ProgramKind::BuiltinAlias);
    assert_eq!(
        parse_manifest("bad\nname=echo\nkind=builtin-alias\nentry=echo").map(|m| m.name),
        Err(ProgramLoadError::InvalidVersion)
    );
    assert_eq!(
        parse_manifest("ares-exec-v1\nkind=builtin-alias\nentry=echo").map(|m| m.name),
        Err(ProgramLoadError::MissingName)
    );
}

#[test]
fn phase9_loader_syscalls_report_status() {
    let mut k = kernel_state();
    kernel::storage::format(&mut k.fs).expect("format should seed executable manifests");
    assert!(invoke_raw(&mut k, SyscallId::ProgramCount.as_u64(), 0).unwrap() >= 4);
    assert_eq!(invoke_raw(&mut k, SyscallId::ProgramLaunchCount.as_u64(), 1), Err(SyscallError::InvalidArgument));
    assert!(phase9_smoke_check(&mut k));
}
