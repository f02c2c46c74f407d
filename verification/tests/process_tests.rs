use kernel::performance::process_metrics::{
    event_count, fairness_inputs, latest_event, log_event, recent_events, EventLog, EventType, ProcessMetricsGlobal, EVENT_LOG_CAPACITY,
};
use kernel::task::process::{
    add_process_cpu_ticks, create_kernel_process, get_all_processes, get_process, get_ready_processes, process_count,
    reap_terminated_processes, record_context_switch, set_process_state, terminate_process, Process, ProcessId,
    ProcessRegistry, ProcessState,
};

#[test]
fn pid_creation() {
    let pid1 = ProcessId::from_raw(1);
    let pid2 = ProcessId::from_raw(2);
    assert_ne!(pid1, pid2);
    assert_eq!(pid1.as_u64(), 1);
}

#[test]
fn process_state_transitions() {
    let mut process = Process::new(ProcessId::from_raw(1), "test", 0);
    assert_eq!(process.state(), ProcessState::New);
    process.set_state(ProcessState::Ready);
    assert_eq!(process.state(), ProcessState::Ready);
    assert!(process.state().is_runnable());
    process.exit_with_code(0);
    assert_eq!(process.state(), ProcessState::Terminated);
    assert!(!process.state().is_runnable());
    assert_eq!(process.exit_code(), Some(0));
}

#[test]
fn process_metrics_accumulation() {
    let mut process = Process::new(ProcessId::from_raw(1), "test", 100);
    assert_eq!(process.cpu_ticks(), 0);
    assert_eq!(process.switches(), 0);
    process.add_cpu_ticks(50);
    process.record_switch();
    assert_eq!(process.cpu_ticks(), 50);
    assert_eq!(process.switches(), 1);
    assert_eq!(process.created_tick(), 100);
    process.add_cpu_ticks(u64::MAX);
    assert_eq!(process.cpu_ticks(), u64::MAX);
    process.set_parent(ProcessId::from_raw(7));
    assert_eq!(process.parent_pid(), Some(ProcessId::from_raw(7)));
    assert_eq!(process.name(), "test");
    assert_eq!(process.id(), ProcessId::from_raw(1));
}

#[test]
fn registry_creates_sequential_pids_and_logs_events() {
    let mut reg = ProcessRegistry::new();
    let mut metrics = ProcessMetricsGlobal::new();
    let mut log = EventLog::new();
    let a = create_kernel_process(&mut reg, &mut metrics, &mut log, 10, "a", 3).unwrap();
    let b = create_kernel_process(&mut reg, &mut metrics, &mut log, 11, "b", 4).unwrap();
    assert_eq!(a.as_u64(), 1);
    assert_eq!(b.as_u64(), 2);
    assert_eq!(process_count(&reg), 2);
    assert_eq!(get_process(&reg, a), Some(a));
    assert_eq!(get_process(&reg, ProcessId::from_raw(99)), None);
    assert_eq!(metrics.global_snapshot(), (2, 0, 0, 0));
    let latest = latest_event(&log).unwrap();
    assert_eq!(latest.event_type, EventType::Ready);
    assert_eq!(latest.pid, 2);
    assert_eq!(latest.tick, 11);
    assert_eq!(reg.get_process(a).unwrap().state(), ProcessState::New);
}

#[test]
fn ready_processes_lists_runnable_in_pid_order() {
    let mut reg = ProcessRegistry::new();
    let a = reg.create_process("a", 0).unwrap();
    let b = reg.create_process("b", 0).unwrap();
    let c = reg.create_process("c", 0).unwrap();
    assert!(set_process_state(&mut reg, c, ProcessState::Ready));
    assert!(set_process_state(&mut reg, a, ProcessState::Running));
    assert!(set_process_state(&mut reg, b, ProcessState::Blocked));
    assert_eq!(get_ready_processes(&reg), vec![a, c]);
    assert!(!set_process_state(&mut reg, ProcessId::from_raw(50), ProcessState::Ready));
}

#[test]
fn accounting_updates_named_process_only() {
    let mut reg = ProcessRegistry::new();
    let a = reg.create_process("a", 0).unwrap();
    let b = reg.create_process("b", 0).unwrap();
    assert!(add_process_cpu_ticks(&mut reg, a, 30));
    assert!(record_context_switch(&mut reg, a));
    assert_eq!(reg.get_process(a).unwrap().cpu_ticks(), 30);
    assert_eq!(reg.get_process(a).unwrap().switches(), 1);
    assert_eq!(reg.get_process(b).unwrap().cpu_ticks(), 0);
    let rows = get_all_processes(&reg);
    assert_eq!(rows, vec![(a, "a", ProcessState::New, 30), (b, "b", ProcessState::New, 0)]);
}

#[test]
fn terminate_then_reap_removes_process() {
    let mut reg = ProcessRegistry::new();
    let mut metrics = ProcessMetricsGlobal::new();
    let mut log = EventLog::new();
    let a = create_kernel_process(&mut reg, &mut metrics, &mut log, 0, "a", 0).unwrap();
    let b = create_kernel_process(&mut reg, &mut metrics, &mut log, 0, "b", 0).unwrap();
    assert!(terminate_process(&mut reg, &mut metrics, &mut log, 5, a, 3));
    assert_eq!(reg.get_process(a).unwrap().exit_code(), Some(3));
    assert_eq!(latest_event(&log).unwrap().event_type, EventType::Terminated);
    assert_eq!(metrics.global_snapshot().1, 1);
    assert_eq!(reap_terminated_processes(&mut reg), 1);
    assert_eq!(get_process(&reg, a), None);
    assert_eq!(get_process(&reg, b), Some(b));
    assert_eq!(reap_terminated_processes(&mut reg), 0);
    assert!(!terminate_process(&mut reg, &mut metrics, &mut log, 6, a, 0));
    assert_eq!(metrics.global_snapshot().1, 1);
}

#[test]
fn registry_is_capped() {
    let mut reg = ProcessRegistry::new();
    for _ in 0..256 {
        assert!(reg.create_process("p", 0).is_some());
    }
    assert_eq!(reg.create_process("p", 0), None);
    assert_eq!(process_count(&reg), 256);
}

#[test]
fn event_log_records_entries() {
    let mut log = EventLog::new();
    let before = event_count(&log);
    log_event(&mut log, 9, EventType::Preempted, 42);
    assert_eq!(event_count(&log), before + 1);
    let latest = latest_event(&log).expect("expected one event");
    assert_eq!(latest.event_type, EventType::Preempted);
    assert_eq!(latest.pid, 42);
}

#[test]
fn event_log_keeps_newest_events_first() {
    let mut log = EventLog::new();
    assert_eq!(latest_event(&log), None);
    for i in 0..300u64 {
        log_event(&mut log, i, EventType::Ready, i);
    }
    assert_eq!(event_count(&log), EVENT_LOG_CAPACITY);
    let recent = recent_events(&log, 3);
    assert_eq!(recent.iter().map(|e| e.pid).collect::<Vec<_>>(), vec![299, 298, 297]);
    assert_eq!(recent_events(&log, 0).len(), 0);
    let all = recent_events(&log, 1000);
    assert_eq!(all.len(), 256);
    assert_eq!(all[255].pid, 44);
}

#[test]
fn global_metrics_increment() {
    let mut m = ProcessMetricsGlobal::new();
    m.record_process_creation();
    m.record_preemption();
    m.record_fairness_violation();
    m.record_process_termination();
    assert_eq!(m.global_snapshot(), (1, 1, 1, 1));
}

#[test]
fn fairness_inputs_report_extremes() {
    assert_eq!(fairness_inputs(&[]), (0, 0, 0));
    assert_eq!(fairness_inputs(&[1000, 1050, 990]), (3, 1050, 990));
}

#[test]
fn recent_events_after_a_long_history() {
    let mut log = EventLog::new();
    for i in 0..300u64 {
        log_event(&mut log, i, EventType::Ready, i);
    }
    assert_eq!(event_count(&log), EVENT_LOG_CAPACITY);
    let recent = recent_events(&log, 3);
    let pids: Vec<u64> = recent.iter().map(|e| e.pid).collect();
    assert_eq!(pids, vec![299, 298, 297]);
    let all = recent_events(&log, 1000);
    assert_eq!(all.len(), EVENT_LOG_CAPACITY);
    assert_eq!(all[EVENT_LOG_CAPACITY - 1].pid, 300 - EVENT_LOG_CAPACITY as u64);
    assert!(recent_events(&log, 0).is_empty());
}

#[test]
fn created_ids_are_fresh_and_ascending() {
    let mut reg = ProcessRegistry::new();
    let mut ids = Vec::new();
    for t in 0..5u64 {
        ids.push(reg.create_process("worker", t).unwrap());
        assert_eq!(process_count(&reg), ids.len());
    }
    for w in ids.windows(2) {
        assert!(w[0].as_u64() < w[1].as_u64());
    }
    let ready = get_ready_processes(&reg);
    assert!(ready.is_empty());
    set_process_state(&mut reg, ids[3], ProcessState::Ready);
    set_process_state(&mut reg, ids[1], ProcessState::Running);
    assert_eq!(get_ready_processes(&reg), vec![ids[1], ids[3]]);
}
