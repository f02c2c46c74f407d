use kernel::performance::metrics::PerformanceCounters;
use kernel::performance::profiler::{with_entries, ProfileEntry, ProfileLog, Profiler, MAX_ENTRIES};
use kernel::task::executor::{system_stats, system_task_snapshots, ExecutorBook, ExecutorStats};
use kernel::task::keyboard::{
    join_parts, parse_block_id, parse_console_command, parse_pid, parse_u64, split_whitespace, ConsoleAction,
    ConsoleCommand, ConsoleLine,
};
use kernel::task::{Task, TaskId, TaskIdAllocator, TaskState};

// ───────────────────────── console parsing ─────────────────────────

#[test]
fn numbers_parse_like_std() {
    assert_eq!(parse_u64("42"), Some(42));
    assert_eq!(parse_u64("+7"), Some(7));
    assert_eq!(parse_u64("18446744073709551615"), Some(u64::MAX));
    assert_eq!(parse_u64("18446744073709551616"), None);
    assert_eq!(parse_u64(""), None);
    assert_eq!(parse_u64("+"), None);
    assert_eq!(parse_u64("-1"), None);
    assert_eq!(parse_u64("1x"), None);
}

#[test]
fn pids_and_block_ids_exclude_zero() {
    assert_eq!(parse_pid("12"), Ok(12));
    assert_eq!(parse_pid("0"), Err("reserved-pid"));
    assert_eq!(parse_pid("abc"), Err("not-a-number"));
    assert_eq!(parse_block_id("3"), Ok(3));
    assert_eq!(parse_block_id("0"), Err("reserved-id"));
    assert_eq!(parse_block_id(""), Err("not-a-number"));
}

#[test]
fn words_are_split_on_white_space() {
    assert_eq!(split_whitespace("  write /a   hello world \t"), vec!["write", "/a", "hello", "world"]);
    assert!(split_whitespace(" \t ").is_empty());
    assert_eq!(join_parts(&["hello", "world"]), "hello world");
    assert_eq!(join_parts(&[]), "");
}

#[test]
fn console_commands_are_recognised() {
    assert_eq!(parse_console_command("").0, ConsoleCommand::Empty);
    assert_eq!(parse_console_command("help").0, ConsoleCommand::Help);
    assert_eq!(parse_console_command("kill 3").0, ConsoleCommand::Kill);
    assert_eq!(parse_console_command("kill").0, ConsoleCommand::Unknown);
    assert_eq!(parse_console_command("run echo hi").0, ConsoleCommand::Run);
    assert_eq!(parse_console_command("bin list").0, ConsoleCommand::Programs);
    assert_eq!(parse_console_command("programs").0, ConsoleCommand::Programs);
    assert_eq!(parse_console_command("bin map /bin/x").0, ConsoleCommand::BinMap);
    assert_eq!(parse_console_command("loadplans").0, ConsoleCommand::BinPlans);
    assert_eq!(parse_console_command("write /a b c").0, ConsoleCommand::Write);
    assert_eq!(parse_console_command("write /a").0, ConsoleCommand::WriteUsage);
    assert_eq!(parse_console_command("mount").0, ConsoleCommand::Mount);
    assert_eq!(parse_console_command("mount 2").0, ConsoleCommand::MountBlock);
    assert_eq!(parse_console_command("blk info 1").0, ConsoleCommand::BlkInfo);
    assert_eq!(parse_console_command("sched quantum 5").0, ConsoleCommand::SchedQuantum);
    assert_eq!(parse_console_command("sched maxproc 8").0, ConsoleCommand::SchedMaxProc);
    assert_eq!(parse_console_command("frobnicate").0, ConsoleCommand::Unknown);
    let (cmd, words) = parse_console_command("  chmod  /a  644 ");
    assert_eq!(cmd, ConsoleCommand::Chmod);
    assert_eq!(words, vec!["chmod", "/a", "644"]);
}

#[test]
fn console_line_edits_and_submits() {
    let mut line = ConsoleLine::new();
    assert_eq!(line.handle_char('\n'), ConsoleAction::Nothing);
    assert_eq!(line.handle_char('\u{8}'), ConsoleAction::Nothing);
    for c in "  lsx".chars() {
        assert_eq!(line.handle_char(c), ConsoleAction::Echo(c));
    }
    assert_eq!(line.handle_char('\u{7f}'), ConsoleAction::Erase);
    assert_eq!(line.handle_char(' '), ConsoleAction::Echo(' '));
    assert_eq!(line.handle_char('\r'), ConsoleAction::Submit);
    assert_eq!(line.submitted(), "ls");
    assert_eq!(line.handle_char(' '), ConsoleAction::Echo(' '));
    assert_eq!(line.handle_char('\n'), ConsoleAction::Nothing);
    assert_eq!(line.submitted(), "ls");
}

// ───────────────────────── tasks and executor ─────────────────────────

#[test]
fn task_ids_count_up() {
    let mut ids = TaskIdAllocator::new();
    let a = Task::new(&mut ids, 5);
    let b = Task::named(&mut ids, "keyboard", 6);
    assert_eq!(a.id(), TaskId(0));
    assert_eq!(a.name(), "unnamed");
    assert_eq!(a.created_tick(), 5);
    assert_eq!(b.id().as_u64(), 1);
    assert_eq!(b.name(), "keyboard");
    let mut b = b;
    assert_eq!(b.state(), TaskState::Ready);
    b.set_state(TaskState::Sleeping);
    assert_eq!(b.state(), TaskState::Sleeping);
    assert_eq!(b.id(), TaskId(1));
}

#[test]
fn executor_book_tracks_task_lifecycle() {
    let mut book = ExecutorBook::new();
    book.spawn(TaskId(0), "keyboard", 10, TaskState::Ready, 1);
    book.spawn(TaskId(1), "uptime", 12, TaskState::Ready, 2);
    assert_eq!(
        system_stats(&book),
        ExecutorStats { active_tasks: 2, sleeping_tasks: 0, ready_queue_depth: 2, completed_tasks: 0 }
    );

    book.begin_poll(TaskId(0), false, 20);
    book.finish_poll(TaskId(0), false, 21);
    book.finish_poll(TaskId(1), true, 22);
    book.set_ready_queue_depth(0);
    assert_eq!(
        system_stats(&book),
        ExecutorStats { active_tasks: 1, sleeping_tasks: 1, ready_queue_depth: 0, completed_tasks: 1 }
    );

    let snaps = system_task_snapshots(&book, 30);
    assert_eq!(snaps.len(), 1);
    assert_eq!(snaps[0].id, 0);
    assert_eq!(snaps[0].name, "keyboard");
    assert_eq!(snaps[0].state, TaskState::Sleeping);
    assert_eq!(snaps[0].age_ticks, 20);
    assert_eq!(snaps[0].state_age_ticks, 9);

    book.begin_poll(TaskId(0), true, 31);
    assert_eq!(system_stats(&book).sleeping_tasks, 0);
    assert_eq!(system_task_snapshots(&book, 31)[0].state, TaskState::Ready);
}

#[test]
fn fairness_checkpoint_runs_once_per_interval() {
    let mut book = ExecutorBook::new();
    assert!(!book.fairness_checkpoint(5, false));
    assert!(book.fairness_checkpoint(10, false));
    assert!(!book.fairness_checkpoint(15, false));
    assert!(!book.fairness_checkpoint(20, true));
    assert!(!book.fairness_checkpoint(25, false));
    assert!(book.fairness_checkpoint(30, false));
}

// ───────────────────────── performance ─────────────────────────

#[test]
fn cpu_frequency_from_two_snapshots() {
    let start = PerformanceCounters::read(1_000, 100);
    let end = PerformanceCounters::read(1_000 + 2_000_000_000, 200);
    assert_eq!(end.tsc(), 2_000_001_000);
    assert_eq!(end.ticks(), 200);
    assert_eq!(PerformanceCounters::cpu_frequency_mhz(&start, &end), 2000);
    assert_eq!(PerformanceCounters::cpu_frequency_mhz(&start, &start), 0);
    assert_eq!(PerformanceCounters::cpu_frequency_mhz(&end, &start), 0);
}

#[test]
fn profiler_keeps_latest_entries() {
    let entry = ProfileEntry { label: "x", start_tsc: 10, end_tsc: 4 };
    assert_eq!(entry.elapsed_cycles(), 0);
    let mut log = ProfileLog::new();
    assert!(with_entries(&log).is_empty());
    Profiler::start("boot", 100).finish(&mut log, 350);
    let entries = with_entries(&log);
    assert_eq!(entries.len(), 1);
    assert_eq!(entries[0].label, "boot");
    assert_eq!(entries[0].elapsed_cycles(), 250);
    for i in 0..MAX_ENTRIES as u64 {
        Profiler::start("loop", i).finish(&mut log, i + 1);
    }
    let entries = with_entries(&log);
    assert_eq!(entries.len(), MAX_ENTRIES);
    assert!(entries.iter().all(|e| e.label == "loop"));
}

#[test]
fn profiler_entries_come_oldest_first() {
    let mut log = ProfileLog::new();
    for i in 0..(MAX_ENTRIES as u64 + 1) {
        Profiler::start("section", i * 10).finish(&mut log, i * 10 + 1);
    }
    let entries = with_entries(&log);
    assert_eq!(entries.len(), MAX_ENTRIES);
    let starts: Vec<u64> = entries.iter().map(|e| e.start_tsc).collect();
    let expected: Vec<u64> = (1..(MAX_ENTRIES as u64 + 1)).map(|i| i * 10).collect();
    assert_eq!(starts, expected);
}

#[test]
fn finishing_a_task_removes_only_that_task() {
    let mut book = ExecutorBook::new();
    book.spawn(TaskId(0), "a", 1, TaskState::Ready, 1);
    book.spawn(TaskId(1), "b", 2, TaskState::Ready, 2);
    book.spawn(TaskId(2), "c", 3, TaskState::Ready, 3);
    book.finish_poll(TaskId(1), true, 10);
    let snaps = system_task_snapshots(&book, 10);
    assert_eq!(snaps.len(), 2);
    assert_eq!((snaps[0].id, snaps[0].name, snaps[0].state), (0, "a", TaskState::Ready));
    assert_eq!((snaps[1].id, snaps[1].name, snaps[1].state), (2, "c", TaskState::Ready));
    assert_eq!(snaps[1].age_ticks, 7);
}
