//! User programs: name resolution through the program loader and the builtin
//! programs `echo`, `time`, `sysinfo` and `fsinfo`.

use vstd::prelude::*;
use crate::kernel_state::KernelState;
use crate::syscall::{invoke_raw, SyscallId, SyscallError, file_count_result, query_result, served, syscall_id_of};
use crate::task::program_loader::{
    resolve_program, record_launch_success, record_launch_failure, discovered, first_named, str_eq,
    wrapping_inc, LaunchCounters,
};
use crate::task::process::{
    create_kernel_process, set_process_state, terminate_process, ProcessState, ProcessView, ProcessId,
    MAX_PROCESSES, created_table, new_process_view, update_process, index_of, next_pid_after,
    law_created_process_is_found,
};
use crate::performance::process_metrics::{pushed_events, EventLogEntry, EventType, ProcessMetricsGlobal};
use crate::task::timer::PIT_HZ;

verus! {

// ───────────────────────────── decimal text ─────────────────────────────

pub open spec fn digit_char(d: nat) -> char {
    if d == 0 {
        '0'
    } else if d == 1 {
        '1'
    } else if d == 2 {
        '2'
    } else if d == 3 {
        '3'
    } else if d == 4 {
        '4'
    } else if d == 5 {
        '5'
    } else if d == 6 {
        '6'
    } else if d == 7 {
        '7'
    } else if d == 8 {
        '8'
    } else {
        '9'
    }
}

/// Decimal digits of `n`, most significant first, without leading zeros.
pub open spec fn decimal(n: nat) -> Seq<char>
    decreases n,
{
    if n < 10 {
        seq![digit_char(n)]
    } else {
        decimal(n / 10).push(digit_char(n % 10))
    }
}

fn digit_str(d: u64) -> (r: &'static str)
    requires
        d < 10,
    ensures
        r@ == seq![digit_char(d as nat)],
{
    if d == 0 {
        proof {
            reveal_strlit("0");
        }
        "0"
    } else if d == 1 {
        proof {
            reveal_strlit("1");
        }
        "1"
    } else if d == 2 {
        proof {
            reveal_strlit("2");
        }
        "2"
    } else if d == 3 {
        proof {
            reveal_strlit("3");
        }
        "3"
    } else if d == 4 {
        proof {
            reveal_strlit("4");
        }
        "4"
    } else if d == 5 {
        proof {
            reveal_strlit("5");
        }
        "5"
    } else if d == 6 {
        proof {
            reveal_strlit("6");
        }
        "6"
    } else if d == 7 {
        proof {
            reveal_strlit("7");
        }
        "7"
    } else if d == 8 {
        proof {
            reveal_strlit("8");
        }
        "8"
    } else {
        proof {
            reveal_strlit("9");
        }
        "9"
    }
}

/// Appends the decimal digits of `n`.
pub fn append_decimal(out: &mut String, n: u64)
    ensures
        final(out)@ == old(out)@ + decimal(n as nat),
    decreases n,
{
    if n >= 10 {
        append_decimal(out, n / 10);
    }
    out.append(digit_str(n % 10));
    assert(old(out)@ + decimal(n as nat) =~= if n >= 10 {
        old(out)@ + decimal((n / 10) as nat) + seq![digit_char((n % 10) as nat)]
    } else {
        old(out)@ + seq![digit_char((n % 10) as nat)]
    });
}

// ───────────────────────────── builtins ─────────────────────────────

/// The words of `parts` separated by single spaces.
pub open spec fn joined(parts: Seq<Seq<char>>) -> Seq<char>
    decreases parts.len(),
{
    if parts.len() == 0 {
        Seq::empty()
    } else if parts.len() == 1 {
        parts[0]
    } else {
        joined(parts.drop_last()) + seq![' '] + parts.last()
    }
}

pub open spec fn views(args: Seq<&str>) -> Seq<Seq<char>> {
    args.map_values(|a: &str| a@)
}

pub open spec fn builtin_name(name: Seq<char>) -> bool {
    name == "echo"@ || name == "time"@ || name == "sysinfo"@ || name == "fsinfo"@
}

pub open spec fn bool_text(b: bool) -> Seq<char> {
    if b {
        "true"@
    } else {
        "false"@
    }
}

/// Output of `time` at tick `t`.
pub open spec fn time_text(t: u64) -> Seq<char> {
    "uptime_ticks="@ + decimal(t as nat) + " uptime_secs="@ + decimal((t / PIT_HZ) as nat)
}

/// Output of `sysinfo`.
pub open spec fn sysinfo_text(t: u64, procs: u64, preemptions: u64) -> Seq<char> {
    "ticks="@ + decimal(t as nat) + " process_count="@ + decimal(procs as nat) + " preemptions="@ + decimal(
        preemptions as nat,
    ) + " tick_counter="@ + decimal(t as nat)
}

/// Output of `fsinfo`.
pub open spec fn fsinfo_text(mounted: bool, files: u64, blocks: u64, programs: u64) -> Seq<char> {
    "mounted="@ + bool_text(mounted) + " files="@ + decimal(files as nat) + " block_devices="@ + decimal(
        blocks as nat,
    ) + " programs="@ + decimal(programs as nat)
}

/// What running builtin `entry` with `args` prints on kernel state `k`, or the error
/// message.
pub open spec fn builtin_output(k: KernelState, entry: Seq<char>, args: Seq<Seq<char>>) -> Result<
    Seq<char>,
    Seq<char>,
> {
    if entry == "echo"@ {
        Ok(joined(args))
    } else if entry == "time"@ {
        Ok(time_text(k.tick))
    } else if entry == "sysinfo"@ {
        Ok(sysinfo_text(k.tick, k.processes.procs().len() as u64, k.process_metrics.total_preemptions))
    } else if entry == "fsinfo"@ {
        match file_count_result(k.fs) {
            Ok(files) => Ok(
                fsinfo_text(
                    k.fs.mounted(),
                    files,
                    k.devices.block_device_count as u64,
                    discovered(k.fs).len() as usize as u64,
                ),
            ),
            Err(_) => Err("syscall failed"@),
        }
    } else {
        Err("unknown user program"@)
    }
}

fn join_args(args: &[&str]) -> (r: String)
    ensures
        r@ == joined(views(args@)),
{
    let mut out = String::new();
    let mut i: usize = 0;
    while i < args.len()
        invariant
            i <= args@.len(),
            out@ == joined(views(args@.subrange(0, i as int))),
        decreases args@.len() - i,
    {
        let ghost before = out@;
        if i > 0 {
            out.append(" ");
        }
        out.append(args[i]);
        proof {
            reveal_strlit(" ");
            let vs = views(args@.subrange(0, i as int + 1));
            assert(vs.drop_last() =~= views(args@.subrange(0, i as int)));
            assert(vs.last() == args@[i as int]@);
            if i == 0 {
                assert(vs =~= seq![args@[0]@]);
            }
        }
        i = i + 1;
    }
    assert(args@.subrange(0, i as int) =~= args@);
    out
}

fn syscall_value(k: &mut KernelState, id: SyscallId) -> (r: Result<u64, &'static str>)
    requires
        old(k).wf(),
        id.number() <= 51,
        !(id is StorageFormat),
    ensures
        *final(k) == *old(k),
        match query_result(*old(k), id) {
            Ok(v) => r == Ok::<u64, &'static str>(v),
            Err(_) => r is Err && r->Err_0@ == "syscall failed"@,
        },
{
    match invoke_raw(k, id.as_u64(), 0) {
        Ok(v) => Ok(v),
        Err(_) => Err("syscall failed"),
    }
}

/// Runs builtin `entry`.
fn dispatch_builtin(k: &mut KernelState, entry: &str, args: &[&str]) -> (r: Result<String, &'static str>)
    requires
        old(k).wf(),
    ensures
        *final(k) == *old(k),
        match builtin_output(*old(k), entry@, views(args@)) {
            Ok(out) => r is Ok && r->Ok_0@ == out,
            Err(msg) => r is Err && r->Err_0@ == msg,
        },
{
    if str_eq(entry, "echo") {
        Ok(join_args(args))
    } else if str_eq(entry, "time") {
        let ticks = match syscall_value(k, SyscallId::GetTickCount) {
            Ok(v) => v,
            Err(e) => return Err(e),
        };
        let mut out = "uptime_ticks=".to_owned();
        append_decimal(&mut out, ticks);
        out.append(" uptime_secs=");
        append_decimal(&mut out, ticks / PIT_HZ);
        Ok(out)
    } else if str_eq(entry, "sysinfo") {
        let ticks = match syscall_value(k, SyscallId::GetTickCount) {
            Ok(v) => v,
            Err(e) => return Err(e),
        };
        let procs = match syscall_value(k, SyscallId::GetProcessCount) {
            Ok(v) => v,
            Err(e) => return Err(e),
        };
        let preemptions = match syscall_value(k, SyscallId::GetTotalPreemptions) {
            Ok(v) => v,
            Err(e) => return Err(e),
        };
        let tick_counter = k.tick;
        let mut out = "ticks=".to_owned();
        append_decimal(&mut out, ticks);
        out.append(" process_count=");
        append_decimal(&mut out, procs);
        out.append(" preemptions=");
        append_decimal(&mut out, preemptions);
        out.append(" tick_counter=");
        append_decimal(&mut out, tick_counter);
        Ok(out)
    } else if str_eq(entry, "fsinfo") {
        let mounted = match syscall_value(k, SyscallId::StorageMounted) {
            Ok(v) => v,
            Err(e) => return Err(e),
        };
        let files = match syscall_value(k, SyscallId::StorageFileCount) {
            Ok(v) => v,
            Err(e) => return Err(e),
        };
        let blocks = match syscall_value(k, SyscallId::BlockDeviceCount) {
            Ok(v) => v,
            Err(e) => return Err(e),
        };
        let programs = match syscall_value(k, SyscallId::ProgramCount) {
            Ok(v) => v,
            Err(e) => return Err(e),
        };
        let mut out = "mounted=".to_owned();
        out.append(if mounted == 1 {
            "true"
        } else {
            "false"
        });
        out.append(" files=");
        append_decimal(&mut out, files);
        out.append(" block_devices=");
        append_decimal(&mut out, blocks);
        out.append(" programs=");
        append_decimal(&mut out, programs);
        Ok(out)
    } else {
        Err("unknown user program")
    }
}

fn is_builtin_entry(name: &str) -> (r: bool)
    ensures
        r == builtin_name(name@),
{
    str_eq(name, "echo") || str_eq(name, "time") || str_eq(name, "sysinfo") || str_eq(name, "fsinfo")
}

/// The process table after a program run is recorded at tick `t`: a process named
/// `program` is created, made ready and terminated with exit code 0.
pub open spec fn recorded_run(procs: Seq<ProcessView>, next_pid: u64, t: u64) -> Seq<ProcessView> {
    if procs.len() >= MAX_PROCESSES {
        procs
    } else {
        let pid = ProcessId(next_pid);
        let created = created_table(procs, new_process_view(pid, "program", t));
        let ready = update_process(created, pid, |p: ProcessView| ProcessView { state: ProcessState::Ready, ..p });
        update_process(
            ready,
            pid,
            |p: ProcessView| ProcessView { exit_code: Some(0i32), state: ProcessState::Terminated, ..p },
        )
    }
}

/// The parts of the kernel state that running a program leaves alone.
pub open spec fn run_keeps_rest(k0: KernelState, k1: KernelState) -> bool {
    &&& k1.tick == k0.tick
    &&& k1.fs == k0.fs
    &&& k1.frames == k0.frames
    &&& k1.security == k0.security
    &&& k1.devices == k0.devices
    &&& k1.pipeline == k0.pipeline
}

/// `k1` holds the process bookkeeping of `k0` after one run is recorded at
/// `k0.tick`: the table as `recorded_run` gives it and, unless the table was full,
/// the next id advanced, one creation and one termination counted, and a `Ready`
/// then a `Terminated` event logged for the new id.
pub open spec fn run_recorded(k0: KernelState, k1: KernelState) -> bool {
    let pid = k0.processes.next_pid();
    &&& k1.processes.procs() == recorded_run(k0.processes.procs(), pid, k0.tick)
    &&& if k0.processes.procs().len() >= MAX_PROCESSES {
        &&& k1.processes.next_pid() == pid
        &&& k1.process_metrics == k0.process_metrics
        &&& k1.events.events() == k0.events.events()
    } else {
        &&& k1.processes.next_pid() == next_pid_after(pid)
        &&& k1.process_metrics == (ProcessMetricsGlobal {
            process_creations: wrapping_inc(k0.process_metrics.process_creations),
            process_terminations: wrapping_inc(k0.process_metrics.process_terminations),
            ..k0.process_metrics
        })
        &&& k1.events.events() == pushed_events(
            pushed_events(k0.events.events(), EventLogEntry { tick: k0.tick, event_type: EventType::Ready, pid }),
            EventLogEntry { tick: k0.tick, event_type: EventType::Terminated, pid },
        )
    }
}

/// The process bookkeeping of `k1` is that of `k0`.
pub open spec fn run_unrecorded(k0: KernelState, k1: KernelState) -> bool {
    &&& k1.processes == k0.processes
    &&& k1.process_metrics == k0.process_metrics
    &&& k1.events == k0.events
}

fn record_program_process(k: &mut KernelState)
    requires
        old(k).wf(),
    ensures
        final(k).wf(),
        run_recorded(*old(k), *final(k)),
        run_keeps_rest(*old(k), *final(k)),
        final(k).launches == old(k).launches,
{
    let tick = k.tick;
    let ghost k0 = *k;
    proof {
        if k0.processes.procs().len() < MAX_PROCESSES {
            law_created_process_is_found(k0.processes, "program", tick);
        }
    }
    if let Some(pid) = create_kernel_process(
        &mut k.processes,
        &mut k.process_metrics,
        &mut k.events,
        tick,
        "program",
        tick,
    ) {
        let ghost created = k.processes.procs();
        let _ = set_process_state(&mut k.processes, pid, ProcessState::Ready);
        proof {
            let i = index_of(created, pid)->Some_0;
            assert(k.processes.procs()[i].id == pid);
        }
        let _ = terminate_process(&mut k.processes, &mut k.process_metrics, &mut k.events, tick, pid, 0);
    }
}

/// The entry that running `name` dispatches to: the entry of the first discovered
/// program named `name`, else `name` itself when it names a builtin.
pub open spec fn program_entry(k: KernelState, name: Seq<char>) -> Option<Seq<char>> {
    match first_named(discovered(k.fs), name) {
        Some(i) => Some(discovered(k.fs)[i].entry),
        None => if builtin_name(name) {
            Some(name)
        } else {
            None
        },
    }
}

/// What running `name` with `args` answers: the builtin's output for the entry
/// that `name` resolves to, or `program not found`.
pub open spec fn run_result(k: KernelState, name: Seq<char>, args: Seq<Seq<char>>) -> Result<Seq<char>, Seq<char>> {
    match program_entry(k, name) {
        None => Err("program not found"@),
        Some(entry) => builtin_output(k, entry, args),
    }
}

/// The state after running `name` with `args` from `k0`: a success counts a launch
/// and records the run; a failure counts a failed launch and leaves the processes,
/// their counters and the event log as they were.
pub open spec fn run_state(k0: KernelState, k1: KernelState, name: Seq<char>, args: Seq<Seq<char>>) -> bool {
    &&& run_keeps_rest(k0, k1)
    &&& if run_result(k0, name, args) is Ok {
        &&& k1.launches == (LaunchCounters { launch_count: wrapping_inc(k0.launches.launch_count), ..k0.launches })
        &&& run_recorded(k0, k1)
    } else {
        &&& k1.launches == (LaunchCounters {
            failed_launch_count: wrapping_inc(k0.launches.failed_launch_count),
            ..k0.launches
        })
        &&& run_unrecorded(k0, k1)
    }
}

/// Runs program `name` with `args`: resolves it, runs its builtin entry, counts the
/// launch and, on success, records a short-lived process.
pub fn run_program(k: &mut KernelState, name: &str, args: &[&str]) -> (r: Result<String, &'static str>)
    requires
        old(k).wf(),
    ensures
        final(k).wf(),
        run_state(*old(k), *final(k), name@, views(args@)),
        match run_result(*old(k), name@, views(args@)) {
            Ok(out) => r is Ok && r->Ok_0@ == out,
            Err(msg) => r is Err && r->Err_0@ == msg,
        },
{
    let entry = match resolve_program(&k.fs, name) {
        Ok(program) => program.entry,
        Err(_) => {
            if is_builtin_entry(name) {
                name.to_owned()
            } else {
                record_launch_failure(&mut k.launches);
                return Err("program not found");
            }
        },
    };
    match dispatch_builtin(k, entry.as_str(), args) {
        Ok(output) => {
            record_program_process(k);
            record_launch_success(&mut k.launches);
            Ok(output)
        },
        Err(err) => {
            record_launch_failure(&mut k.launches);
            Err(err)
        },
    }
}

/// Running a program shows in the launch syscalls: a run that succeeds raises
/// the answer of syscall 10 (launches) by one and leaves that of syscall 11
/// (failed launches) as it was; a run that fails does the reverse.
pub proof fn law_runs_are_counted(k0: KernelState, k1: KernelState, name: Seq<char>, args: Seq<Seq<char>>)
    requires
        run_state(k0, k1, name, args),
    ensures
        syscall_id_of(10) == Some(SyscallId::ProgramLaunchCount) && served(SyscallId::ProgramLaunchCount),
        syscall_id_of(11) == Some(SyscallId::ProgramFailedLaunchCount) && served(SyscallId::ProgramFailedLaunchCount),
        run_result(k0, name, args) is Ok ==> query_result(k1, SyscallId::ProgramLaunchCount) == Ok::<u64, SyscallError>(
            wrapping_inc(k0.launches.launch_count),
        ) && query_result(k1, SyscallId::ProgramFailedLaunchCount) == query_result(
            k0,
            SyscallId::ProgramFailedLaunchCount,
        ),
        run_result(k0, name, args) is Err ==> query_result(k1, SyscallId::ProgramFailedLaunchCount) == Ok::<
            u64,
            SyscallError,
        >(wrapping_inc(k0.launches.failed_launch_count)) && query_result(k1, SyscallId::ProgramLaunchCount)
            == query_result(k0, SyscallId::ProgramLaunchCount),
{
    crate::syscall::law_counter_syscalls(k0);
    crate::syscall::law_counter_syscalls(k1);
}

/// What each builtin program answers: `echo` its arguments joined by single
/// spaces, `time` the uptime at the current tick, `sysinfo` the tick, process
/// count and preemptions, `fsinfo` the storage summary, and any other entry the
/// error `unknown user program`.
pub proof fn law_builtin_dispatch(k: KernelState, entry: Seq<char>, args: Seq<Seq<char>>)
    ensures
        entry == "echo"@ ==> builtin_output(k, entry, args) == Ok::<Seq<char>, Seq<char>>(joined(args)),
        entry == "time"@ ==> builtin_output(k, entry, args) == Ok::<Seq<char>, Seq<char>>(time_text(k.tick)),
        entry == "sysinfo"@ ==> builtin_output(k, entry, args) == Ok::<Seq<char>, Seq<char>>(
            sysinfo_text(k.tick, k.processes.procs().len() as u64, k.process_metrics.total_preemptions),
        ),
        entry == "fsinfo"@ && file_count_result(k.fs) is Ok ==> builtin_output(k, entry, args) == Ok::<
            Seq<char>,
            Seq<char>,
        >(
            fsinfo_text(
                k.fs.mounted(),
                file_count_result(k.fs)->Ok_0,
                k.devices.block_device_count as u64,
                discovered(k.fs).len() as usize as u64,
            ),
        ),
        !builtin_name(entry) ==> builtin_output(k, entry, args) == Err::<Seq<char>, Seq<char>>("unknown user program"@),
        joined(Seq::empty()) == Seq::<char>::empty(),
        forall|a: Seq<char>| #[trigger] joined(Seq::empty().push(a)) == a,
        forall|ps: Seq<Seq<char>>, a: Seq<char>| ps.len() > 0 ==> #[trigger] joined(ps.push(a)) == joined(ps) + seq![' '] + a,
{
    reveal_strlit("echo");
    assert("echo"@.len() == 4 && "echo"@[0] == 'e' && "echo"@[1] == 'c' && "echo"@[2] == 'h' && "echo"@[3] == 'o');
    reveal_strlit("time");
    assert("time"@.len() == 4 && "time"@[0] == 't' && "time"@[1] == 'i' && "time"@[2] == 'm' && "time"@[3] == 'e');
    reveal_strlit("sysinfo");
    assert("sysinfo"@.len() == 7 && "sysinfo"@[0] == 's' && "sysinfo"@[1] == 'y' && "sysinfo"@[2] == 's' && "sysinfo"@[3] == 'i' && "sysinfo"@[4] == 'n' && "sysinfo"@[5] == 'f' && "sysinfo"@[6] == 'o');
    reveal_strlit("fsinfo");
    assert("fsinfo"@.len() == 6 && "fsinfo"@[0] == 'f' && "fsinfo"@[1] == 's' && "fsinfo"@[2] == 'i' && "fsinfo"@[3] == 'n' && "fsinfo"@[4] == 'f' && "fsinfo"@[5] == 'o');
    assert forall|ps: Seq<Seq<char>>, a: Seq<char>| ps.len() > 0 implies #[trigger] joined(ps.push(a)) == joined(ps)
        + seq![' '] + a by {
        assert(ps.push(a).drop_last() =~= ps);
    }
}

} // verus!
