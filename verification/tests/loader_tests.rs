use kernel::kernel_state::{DeviceCounts, KernelState, SecuritySnapshot};
use kernel::storage::{init, new_kernel_storage, write_file};
use kernel::task::program_loader::{
    discover_programs, manifest_for_builtin, parse_manifest, phase9_smoke_check, program_info, record_launch_failure,
    record_launch_success, resolve_program, status, LaunchCounters, ProgramKind, ProgramLoadError,
};
use kernel::task::userspace::run_program;
use kernel::performance::process_metrics::event_count;
use kernel::task::process::{get_all_processes, ProcessState};

fn kernel_state() -> KernelState {
    let mut fs = new_kernel_storage();
    assert_eq!(init(&mut fs), Ok(()));
    KernelState::boot(
        fs,
        SecuritySnapshot { current_user: 1000, current_role: 2, denied_access_count: 0, denied_execute_count: 0 },
        DeviceCounts { device_total: 3, block_device_count: 1 },
    )
}

fn replace_builtins(k: &mut KernelState) {
    for name in ["echo", "time", "sysinfo", "fsinfo"] {
        let text = manifest_for_builtin(name, "builtin program");
        assert_eq!(write_file(&mut k.fs, &format!("/bin/{}", name), &text), Ok(()));
    }
}

#[test]
fn valid_manifest_parses() {
    let manifest =
        parse_manifest("ares-exec-v1\nname=echo\nkind=builtin-alias\nentry=echo\ndescription=Echo text").unwrap();
    assert_eq!(manifest.name, "echo");
    assert_eq!(manifest.kind, ProgramKind::BuiltinAlias);
    assert_eq!(manifest.entry, "echo");
    assert_eq!(manifest.description, "Echo text");
}

#[test]
fn invalid_manifest_version_is_rejected() {
    assert_eq!(
        parse_manifest("bad-version\nname=echo\nkind=builtin-alias\nentry=echo"),
        Err(ProgramLoadError::InvalidVersion)
    );
    assert_eq!(parse_manifest(""), Err(ProgramLoadError::InvalidVersion));
}

#[test]
fn missing_required_fields_are_rejected() {
    assert_eq!(parse_manifest("ares-exec-v1\nkind=builtin-alias\nentry=echo"), Err(ProgramLoadError::MissingName));
    assert_eq!(parse_manifest("ares-exec-v1\nname=echo\nkind=builtin-alias"), Err(ProgramLoadError::MissingEntry));
    assert_eq!(parse_manifest("ares-exec-v1\nname=echo\nentry=echo"), Err(ProgramLoadError::UnsupportedKind));
}

#[test]
fn unsupported_kind_is_rejected() {
    assert_eq!(parse_manifest("ares-exec-v1\nname=x\nkind=elf\nentry=x"), Err(ProgramLoadError::UnsupportedKind));
}

#[test]
fn malformed_lines_are_rejected() {
    assert_eq!(parse_manifest("ares-exec-v1\nnoequals"), Err(ProgramLoadError::InvalidField));
    assert_eq!(parse_manifest("ares-exec-v1\nname="), Err(ProgramLoadError::InvalidField));
    assert_eq!(parse_manifest("ares-exec-v1\ncolor=red"), Err(ProgramLoadError::InvalidField));
}

#[test]
fn blank_lines_and_crlf_are_accepted() {
    let m = parse_manifest("ares-exec-v1\r\n\r\nname=ls\r\n   \nkind=builtin-alias\r\nentry=ls\r\n").unwrap();
    assert_eq!(m.name, "ls");
    assert_eq!(m.entry, "ls");
    assert_eq!(m.description, "");
}

#[test]
fn builtin_manifest_round_trips() {
    let text = manifest_for_builtin("sysinfo", "System info");
    assert_eq!(text, "ares-exec-v1\nname=sysinfo\nkind=builtin-alias\nentry=sysinfo\ndescription=System info");
    let m = parse_manifest(&text).unwrap();
    assert_eq!(m.name, "sysinfo");
    assert_eq!(m.entry, "sysinfo");
    assert_eq!(m.description, "System info");
}

#[test]
fn seeded_bin_files_are_builtin_manifests() {
    let k = kernel_state();
    let programs = discover_programs(&k.fs);
    let names: Vec<&str> = programs.iter().map(|p| p.name.as_str()).collect();
    assert_eq!(names, vec!["echo", "time", "sysinfo", "fsinfo"]);
    assert_eq!(programs[3].source_path, "/bin/fsinfo");
    assert_eq!(programs[0].kind, ProgramKind::BuiltinAlias);
    assert_eq!(programs[0].entry, "echo");
    assert_eq!(programs[0].description, "builtin: echo");
    assert_eq!(status(&k.fs, &k.launches).program_count, 4);
}

#[test]
fn phase9_loader_discovers_bin_programs() {
    let k = kernel_state();
    let programs = discover_programs(&k.fs);
    assert!(programs.iter().any(|program| program.name == "echo"));
    assert!(programs.iter().any(|program| program.source_path == "/bin/fsinfo"));
}

#[test]
fn phase9_malformed_program_file_does_not_panic() {
    let mut k = kernel_state();
    assert_eq!(write_file(&mut k.fs, "/bin/bad", "not-a-manifest"), Ok(()));
    let programs = discover_programs(&k.fs);
    assert!(!programs.iter().any(|program| program.name == "bad"));
    assert_eq!(program_info(&k.fs, "bad").map(|p| p.name), Err(ProgramLoadError::NotFound));
}

#[test]
fn phase9_run_program_uses_loader_path() {
    let mut k = kernel_state();
    let before = status(&k.fs, &k.launches).launch_count;
    assert_eq!(run_program(&mut k, "echo", &["from", "loader"]), Ok(String::from("from loader")));
    assert!(status(&k.fs, &k.launches).launch_count > before);
}

#[test]
fn discovery_finds_installed_programs() {
    let mut k = kernel_state();
    replace_builtins(&mut k);
    assert_eq!(write_file(&mut k.fs, "/notes", &manifest_for_builtin("hidden", "not in bin")), Ok(()));
    let programs = discover_programs(&k.fs);
    let names: Vec<&str> = programs.iter().map(|p| p.name.as_str()).collect();
    assert_eq!(names, vec!["echo", "time", "sysinfo", "fsinfo"]);
    assert_eq!(programs[0].source_path, "/bin/echo");
    let info = program_info(&k.fs, "time").unwrap();
    assert_eq!(info.entry, "time");
    assert_eq!(resolve_program(&k.fs, "hidden").map(|p| p.name), Err(ProgramLoadError::NotFound));
}

#[test]
fn launch_counters_count() {
    let mut c = LaunchCounters::new();
    record_launch_success(&mut c);
    record_launch_failure(&mut c);
    record_launch_failure(&mut c);
    assert_eq!((c.launch_count, c.failed_launch_count), (1, 2));
}

#[test]
fn echo_joins_arguments() {
    let mut k = kernel_state();
    assert_eq!(run_program(&mut k, "echo", &["hello", "phase", "7"]), Ok(String::from("hello phase 7")));
    assert_eq!(k.launches.launch_count, 1);
    assert_eq!(run_program(&mut k, "echo", &[]), Ok(String::new()));
}

#[test]
fn time_reports_ticks_and_seconds() {
    let mut k = kernel_state();
    k.tick = 1234;
    assert_eq!(run_program(&mut k, "time", &[]), Ok(String::from("uptime_ticks=1234 uptime_secs=12")));
}

#[test]
fn sysinfo_and_fsinfo_report_counters() {
    let mut k = kernel_state();
    k.tick = 5;
    k.process_metrics.total_preemptions = 3;
    assert_eq!(
        run_program(&mut k, "sysinfo", &[]),
        Ok(String::from("ticks=5 process_count=0 preemptions=3 tick_counter=5"))
    );
    assert_eq!(
        run_program(&mut k, "fsinfo", &[]),
        Ok(String::from("mounted=true files=5 block_devices=1 programs=4"))
    );
}

#[test]
fn unknown_program_is_not_found() {
    let mut k = kernel_state();
    assert_eq!(run_program(&mut k, "nope", &[]), Err("program not found"));
    assert_eq!(k.launches.failed_launch_count, 1);
}

#[test]
fn installed_alias_dispatches_to_its_entry() {
    let mut k = kernel_state();
    let text = "ares-exec-v1\nname=say\nkind=builtin-alias\nentry=echo\ndescription=alias";
    assert_eq!(write_file(&mut k.fs, "/bin/say", text), Ok(()));
    assert_eq!(run_program(&mut k, "say", &["hi"]), Ok(String::from("hi")));
    let bad = "ares-exec-v1\nname=bad\nkind=builtin-alias\nentry=missing\ndescription=x";
    assert_eq!(write_file(&mut k.fs, "/bin/bad", bad), Ok(()));
    assert_eq!(run_program(&mut k, "bad", &[]), Err("unknown user program"));
    assert_eq!(k.launches.failed_launch_count, 1);
}

#[test]
fn phase9_smoke_check_needs_the_echo_manifest() {
    let mut k = kernel_state();
    assert!(phase9_smoke_check(&mut k));
    assert_eq!(write_file(&mut k.fs, "/bin/echo", "not-a-manifest"), Ok(()));
    assert!(!phase9_smoke_check(&mut k));
    replace_builtins(&mut k);
    assert!(phase9_smoke_check(&mut k));
}

#[test]
fn successful_run_records_a_terminated_process() {
    let mut k = kernel_state();
    let creations = k.process_metrics.process_creations;
    let terminations = k.process_metrics.process_terminations;
    assert_eq!(run_program(&mut k, "echo", &["x"]), Ok(String::from("x")));
    let rows = get_all_processes(&k.processes);
    assert_eq!(rows.len(), 1);
    assert_eq!(rows[0].1, "program");
    assert_eq!(rows[0].2, ProcessState::Terminated);
    assert_eq!(k.process_metrics.process_creations, creations + 1);
    assert_eq!(k.process_metrics.process_terminations, terminations + 1);
    assert_eq!(event_count(&k.events), 2);
}

#[test]
fn failed_run_leaves_processes_alone() {
    let mut k = kernel_state();
    assert_eq!(run_program(&mut k, "missing", &[]), Err("program not found"));
    assert_eq!(get_all_processes(&k.processes).len(), 0);
    assert_eq!(event_count(&k.events), 0);
    assert_eq!(k.launches.failed_launch_count, 1);
}
