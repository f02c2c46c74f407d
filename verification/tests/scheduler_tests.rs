use kernel::task::keyboard::{apply_sched_command, parse_console_command, SchedUpdateError};
use kernel::task::scheduler::{
    consume_irq_handoff_token, context_lab_timer_progress_check, context_lab_watchdog_check, context_stats,
    context_task_names, get_all_task_metrics, get_kernel_task_counters, get_task_metrics, increment_kernel_task_counter,
    is_canonical_address, on_timer_interrupt_context, on_timer_tick, preempt_if_irq_pending, preempt_if_requested,
    record_reschedule_point, scheduler_quantum_ticks, set_context_switching_enabled, set_fairness_check_interval_ticks,
    set_scheduler_quantum_ticks, spawn_context_task, spawn_demo_context_tasks, spawn_kernel_tasks_phase5, stats,
    take_reschedule_request, try_context_reschedule, try_forced_preempt_from_irq_tail, RescheduleDecision,
    SchedulerState, apply_runtime_config, runtime_config, SchedulerConfigError, SchedulerRuntimeConfig,
};

#[test]
fn scheduler_tick_requests_reschedule() {
    let mut s = SchedulerState::new();
    let before = stats(&s);
    let quantum = scheduler_quantum_ticks(&s);
    for _ in 0..quantum {
        on_timer_tick(&mut s);
    }
    let after = stats(&s);
    assert!(after.timer_ticks >= before.timer_ticks + quantum);
    assert!(after.reschedule_requests >= before.reschedule_requests + 1);
    assert!(after.pending);
}

#[test]
fn take_request_clears_pending_flag() {
    let mut s = SchedulerState::new();
    s.need_reschedule = true;
    assert!(take_reschedule_request(&mut s));
    assert!(!stats(&s).pending);
    assert!(!take_reschedule_request(&mut s));
}

#[test]
fn context_task_names_initially_empty() {
    let s = SchedulerState::new();
    assert!(context_task_names(&s).is_empty());
}

#[test]
fn quantum_and_fairness_are_at_least_one() {
    let mut s = SchedulerState::new();
    assert_eq!(scheduler_quantum_ticks(&s), 5);
    set_scheduler_quantum_ticks(&mut s, 0);
    assert_eq!(scheduler_quantum_ticks(&s), 1);
    set_scheduler_quantum_ticks(&mut s, 7);
    assert_eq!(stats(&s).quantum_ticks, 7);
    set_fairness_check_interval_ticks(&mut s, 0);
    assert_eq!(stats(&s).fairness_check_interval_ticks, 1);
}

#[test]
fn round_robin_alternates_tasks() {
    let mut s = SchedulerState::new();
    let a = spawn_context_task(&mut s, "a");
    let b = spawn_context_task(&mut s, "b");
    let c = spawn_context_task(&mut s, "c");
    assert_eq!((a, b, c), (0, 1, 2));
    set_context_switching_enabled(&mut s, true);
    assert_eq!(try_context_reschedule(&mut s), RescheduleDecision::Switch(0, 1));
    assert_eq!(try_context_reschedule(&mut s), RescheduleDecision::Switch(1, 2));
    assert_eq!(try_context_reschedule(&mut s), RescheduleDecision::Switch(2, 0));
    assert_eq!(try_context_reschedule(&mut s), RescheduleDecision::Switch(0, 1));
    assert_eq!(context_stats(&s).switches, 4);
    let m0 = get_task_metrics(&s, 0).unwrap();
    assert_eq!(m0.switches, 3);
    assert_eq!(m0.preemption_successes, 2);
    assert_eq!(get_task_metrics(&s, 9), None);
}

#[test]
fn reschedule_without_live_switching_reports_true() {
    let mut s = SchedulerState::new();
    assert_eq!(try_context_reschedule(&mut s), RescheduleDecision::Declined(false));
    spawn_context_task(&mut s, "a");
    spawn_context_task(&mut s, "b");
    assert_eq!(try_context_reschedule(&mut s), RescheduleDecision::Declined(true));
    assert_eq!(context_stats(&s).switches, 1);
}

#[test]
fn elapsed_ticks_are_credited_to_outgoing_task() {
    let mut s = SchedulerState::new();
    spawn_context_task(&mut s, "a");
    spawn_context_task(&mut s, "b");
    set_context_switching_enabled(&mut s, true);
    for _ in 0..7 {
        on_timer_tick(&mut s);
    }
    assert_eq!(try_context_reschedule(&mut s), RescheduleDecision::Switch(0, 1));
    assert_eq!(get_task_metrics(&s, 0).unwrap().cpu_ticks, 7);
    assert_eq!(get_task_metrics(&s, 1).unwrap().cpu_ticks, 0);
    let all = get_all_task_metrics(&s);
    assert_eq!(all.len(), 2);
    assert_eq!(all[1].1, "b");
}

#[test]
fn preempt_if_requested_counts_misses_and_points() {
    let mut s = SchedulerState::new();
    assert_eq!(preempt_if_requested(&mut s), None);
    s.need_reschedule = true;
    assert_eq!(preempt_if_requested(&mut s), Some(RescheduleDecision::Declined(false)));
    assert_eq!(context_stats(&s).preempt_misses, 1);
    assert_eq!(stats(&s).reschedule_points, 1);
    record_reschedule_point(&mut s);
    assert_eq!(stats(&s).reschedule_points, 2);
}

#[test]
fn irq_pending_checkpoint_runs_preemption() {
    let mut s = SchedulerState::new();
    spawn_context_task(&mut s, "a");
    spawn_context_task(&mut s, "b");
    set_context_switching_enabled(&mut s, true);
    for _ in 0..5 {
        on_timer_tick(&mut s);
    }
    assert_eq!(preempt_if_irq_pending(&mut s), Some(RescheduleDecision::Switch(0, 1)));
    assert_eq!(context_stats(&s).irq_preempt_checkpoints, 1);
    assert_eq!(preempt_if_irq_pending(&mut s), None);
}

#[test]
fn canonical_address_check() {
    assert!(is_canonical_address(0x0000_7fff_ffff_f000));
    assert!(is_canonical_address(0xffff_8000_0000_0000));
    assert!(!is_canonical_address(0x0001_0000_0000_0000));
    assert!(!is_canonical_address(0xffff_0000_0000_0000));
    let mut s = SchedulerState::new();
    on_timer_interrupt_context(&mut s, 0x0001_0000_0000_0000, 0x1000);
    assert_eq!(context_stats(&s).irq_frame_invalid, 1);
    assert_eq!(context_stats(&s).last_irq_rip, 0x0001_0000_0000_0000);
}

#[test]
fn irq_tail_queues_handoff_when_demo_ready() {
    let mut s = SchedulerState::new();
    assert!(!try_forced_preempt_from_irq_tail(&mut s));
    for _ in 0..5 {
        on_timer_tick(&mut s);
    }
    assert!(!try_forced_preempt_from_irq_tail(&mut s));
    assert_eq!(context_stats(&s).irq_forced_blocked, 1);
    assert_eq!(spawn_demo_context_tasks(&mut s, 0x1000, 0x2000), Some((0, 1)));
    assert_eq!(spawn_demo_context_tasks(&mut s, 0x1000, 0x2000), None);
    set_context_switching_enabled(&mut s, true);
    assert!(!try_forced_preempt_from_irq_tail(&mut s));
    assert_eq!(context_stats(&s).irq_handoff_queued, 1);
    assert_eq!(consume_irq_handoff_token(&mut s), Some((0, 1)));
    assert_eq!(context_stats(&s).irq_handoff_consumed, 1);
    assert_eq!(consume_irq_handoff_token(&mut s), None);
}

#[test]
fn watchdog_and_progress_checks() {
    let mut s = SchedulerState::new();
    assert!(!context_lab_watchdog_check(&mut s));
    s.timer_ticks = 10_001;
    assert!(context_lab_watchdog_check(&mut s));
    assert_eq!(context_stats(&s).watchdog_trips, 1);
    s.last_observed_timer_tick = s.timer_ticks;
    s.stagnant_spin_count = 19_998;
    assert!(!context_lab_timer_progress_check(&mut s));
    assert!(context_lab_timer_progress_check(&mut s));
    assert_eq!(context_stats(&s).timer_stall_fallbacks, 1);
}

#[test]
fn kernel_task_counters() {
    let mut s = SchedulerState::new();
    assert_eq!(increment_kernel_task_counter(&mut s, 2), 0);
    assert_eq!(increment_kernel_task_counter(&mut s, 2), 1);
    assert_eq!(increment_kernel_task_counter(&mut s, 9), 0);
    assert_eq!(get_kernel_task_counters(&s), [0, 2, 0, 0]);
    spawn_kernel_tasks_phase5(&mut s);
    assert_eq!(context_task_names(&s), vec!["kernel-task-1", "kernel-task-2", "kernel-task-3", "kernel-task-4"]);
}

fn console(s: &mut SchedulerState, line: &str) -> Option<Result<SchedulerRuntimeConfig, SchedUpdateError>> {
    let (cmd, words) = parse_console_command(line);
    let arg = words.get(2).map(|w| w.as_str()).unwrap_or("");
    apply_sched_command(s, cmd, arg)
}

#[test]
fn scheduler_console_updates_apply() {
    let mut s = SchedulerState::new();
    let baseline = SchedulerRuntimeConfig { quantum_ticks: 5, fairness_check_interval_ticks: 10, max_processes: 256 };
    let _ = apply_runtime_config(&mut s, baseline);

    assert!(matches!(console(&mut s, "sched quantum 7"), Some(Ok(_))));
    assert!(matches!(console(&mut s, "sched fairness 13"), Some(Ok(_))));
    assert!(matches!(console(&mut s, "sched maxproc 321"), Some(Ok(_))));

    let config = runtime_config(&s);
    assert_eq!(config.quantum_ticks, 7);
    assert_eq!(config.fairness_check_interval_ticks, 13);
    assert_eq!(config.max_processes, 321);
}

#[test]
fn scheduler_console_invalid_update_rolls_back() {
    let mut s = SchedulerState::new();
    let baseline = SchedulerRuntimeConfig { quantum_ticks: 6, fairness_check_interval_ticks: 12, max_processes: 256 };
    let _ = apply_runtime_config(&mut s, baseline);

    assert_eq!(
        console(&mut s, "sched quantum 0"),
        Some(Err(SchedUpdateError::Rejected(SchedulerConfigError::ZeroQuantum)))
    );
    assert_eq!(
        console(&mut s, "sched maxproc 0"),
        Some(Err(SchedUpdateError::Rejected(SchedulerConfigError::ZeroMaxProcesses)))
    );

    let config = runtime_config(&s);
    assert_eq!(config, baseline);
}

#[test]
fn scheduler_console_rejects_bad_values_and_other_commands() {
    let mut s = SchedulerState::new();
    let before = runtime_config(&s);
    assert_eq!(console(&mut s, "sched fairness soon"), Some(Err(SchedUpdateError::InvalidValue)));
    assert_eq!(
        console(&mut s, "sched fairness 0"),
        Some(Err(SchedUpdateError::Rejected(SchedulerConfigError::ZeroFairnessInterval)))
    );
    assert_eq!(console(&mut s, "sched show"), None);
    assert_eq!(console(&mut s, "ps"), None);
    assert_eq!(runtime_config(&s), before);
}
