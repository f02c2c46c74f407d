//! Keyboard console: line editing, splitting a command line into words, and
//! recognising the shell's commands and their numeric arguments.

use vstd::prelude::*;
use crate::task::program_loader::{is_ws, is_whitespace_char};
use crate::task::userspace::{joined, views};
use crate::text::push_char;
use crate::task::scheduler::{
    apply_runtime_config, config_error, config_of, runtime_config, SchedulerConfigError, SchedulerRuntimeConfig,
    SchedulerState,
};

verus! {

/// Maximum number of unprocessed scancodes to buffer.
pub const SCANCODE_QUEUE_SIZE: usize = 100;

// ───────────────────────────── numbers ─────────────────────────────

pub open spec fn is_digit(c: char) -> bool {
    '0' <= c <= '9'
}

pub open spec fn digit_value(c: char) -> nat {
    (c as u32 - '0' as u32) as nat
}

/// Value of a sequence of decimal digits.
pub open spec fn digits_value(ds: Seq<char>) -> nat
    decreases ds.len(),
{
    if ds.len() == 0 {
        0
    } else {
        digits_value(ds.drop_last()) * 10 + digit_value(ds.last())
    }
}

pub open spec fn all_digits(ds: Seq<char>) -> bool {
    forall|i: int| 0 <= i < ds.len() ==> is_digit(#[trigger] ds[i])
}

/// The digits of a decimal number: an optional `+` and at least one digit.
pub open spec fn number_digits(s: Seq<char>) -> Option<Seq<char>> {
    let ds = if s.len() > 0 && s[0] == '+' { s.drop_first() } else { s };
    if ds.len() > 0 && all_digits(ds) {
        Some(ds)
    } else {
        None
    }
}

/// The `u64` that `s` spells in decimal, if any.
pub open spec fn parsed_u64(s: Seq<char>) -> Option<u64> {
    match number_digits(s) {
        Some(ds) => if digits_value(ds) <= u64::MAX {
            Some(digits_value(ds) as u64)
        } else {
            None
        },
        None => None,
    }
}

/// Parses a decimal `u64` (optionally signed `+`), as `str::parse::<u64>` does.
pub fn parse_u64(s: &str) -> (r: Option<u64>)
    ensures
        r == parsed_u64(s@),
{
    let n = s.unicode_len();
    let mut i: usize = 0;
    if n > 0 && s.get_char(0) == '+' {
        i = 1;
    }
    let start = i;
    let ghost ds = if s@.len() > 0 && s@[0] == '+' { s@.drop_first() } else { s@ };
    assert(ds =~= s@.subrange(start as int, n as int));
    if start == n {
        return None;
    }
    let mut v: u64 = 0;
    let mut overflow = false;
    while i < n
        invariant
            n == s@.len(),
            start <= i <= n,
            start < n,
            ds == s@.subrange(start as int, n as int),
            ds == (if s@.len() > 0 && s@[0] == '+' { s@.drop_first() } else { s@ }),
            all_digits(s@.subrange(start as int, i as int)),
            !overflow ==> v == digits_value(s@.subrange(start as int, i as int)),
            overflow ==> digits_value(s@.subrange(start as int, i as int)) > u64::MAX,
        decreases n - i,
    {
        let c = s.get_char(i);
        let ghost pre = s@.subrange(start as int, i as int);
        let ghost pre1 = s@.subrange(start as int, i as int + 1);
        assert(pre1.drop_last() =~= pre);
        assert(pre1.last() == c);
        if !('0' <= c && c <= '9') {
            assert(!all_digits(ds)) by {
                assert(ds[i - start] == c);
            }
            return None;
        }
        let d = (c as u32 - '0' as u32) as u64;
        proof {
            lemma_digits_monotone(pre, c);
        }
        if overflow || v > (u64::MAX - d) / 10 {
            overflow = true;
        } else {
            v = v * 10 + d;
        }
        assert(all_digits(pre1)) by {
            assert forall|j: int| 0 <= j < pre1.len() implies is_digit(#[trigger] pre1[j]) by {
                if j < pre.len() {
                    assert(pre1[j] == pre[j]);
                }
            }
        }
        i = i + 1;
    }
    if overflow {
        None
    } else {
        Some(v)
    }
}

proof fn lemma_digits_monotone(pre: Seq<char>, c: char)
    requires
        is_digit(c),
    ensures
        digits_value(pre.push(c)) == digits_value(pre) * 10 + digit_value(c),
        digits_value(pre.push(c)) >= digits_value(pre),
        digit_value(c) <= 9,
{
    assert(pre.push(c).drop_last() =~= pre);
}

/// Parses a process id: a decimal number other than 0.
pub fn parse_pid(value: &str) -> (r: Result<u64, &'static str>)
    ensures
        match parsed_u64(value@) {
            None => r is Err && r->Err_0@ == "not-a-number"@,
            Some(0) => r is Err && r->Err_0@ == "reserved-pid"@,
            Some(v) => r == Ok::<u64, &'static str>(v),
        },
{
    let pid = match parse_u64(value) {
        Some(p) => p,
        None => return Err("not-a-number"),
    };
    if pid == 0 {
        return Err("reserved-pid");
    }
    Ok(pid)
}

/// Parses a block device id: a decimal number other than 0.
pub fn parse_block_id(value: &str) -> (r: Result<u64, &'static str>)
    ensures
        match parsed_u64(value@) {
            None => r is Err && r->Err_0@ == "not-a-number"@,
            Some(0) => r is Err && r->Err_0@ == "reserved-id"@,
            Some(v) => r == Ok::<u64, &'static str>(v),
        },
{
    let id = match parse_u64(value) {
        Some(i) => i,
        None => return Err("not-a-number"),
    };
    if id == 0 {
        return Err("reserved-id");
    }
    Ok(id)
}

/// The words of `parts` separated by single spaces.
pub fn join_parts(parts: &[&str]) -> (r: String)
    ensures
        r@ == joined(views(parts@)),
{
    let mut out = String::new();
    let mut i: usize = 0;
    while i < parts.len()
        invariant
            i <= parts@.len(),
            out@ == joined(views(parts@.subrange(0, i as int))),
        decreases parts@.len() - i,
    {
        if i > 0 {
            push_char(&mut out, ' ');
        }
        out.append(parts[i]);
        proof {
            let vs = views(parts@.subrange(0, i as int + 1));
            assert(vs.drop_last() =~= views(parts@.subrange(0, i as int)));
            assert(vs.last() == parts@[i as int]@);
            if i == 0 {
                assert(vs =~= seq![parts@[0]@]);
            }
        }
        i = i + 1;
    }
    assert(parts@.subrange(0, i as int) =~= parts@);
    out
}

// ───────────────────────────── words ─────────────────────────────

/// The maximal runs of non-white-space characters of `s`, in order.
pub open spec fn words(s: Seq<char>) -> Seq<Seq<char>>
    decreases s.len(),
{
    if s.len() == 0 {
        Seq::empty()
    } else {
        let w = words(s.drop_last());
        let c = s.last();
        if is_ws(c) {
            w
        } else if s.len() >= 2 && !is_ws(s[s.len() - 2]) && w.len() > 0 {
            w.update(w.len() - 1, w.last().push(c))
        } else {
            w.push(seq![c])
        }
    }
}

/// Splits a command line at white space.
pub fn split_whitespace(line: &str) -> (r: Vec<String>)
    ensures
        r@.map_values(|w: String| w@) == words(line@),
{
    let n = line.unicode_len();
    let mut out: Vec<String> = Vec::new();
    let mut cur = String::new();
    let mut in_word = false;
    let mut i: usize = 0;
    while i < n
        invariant
            n == line@.len(),
            i <= n,
            in_word == (i > 0 && !is_ws(line@[i - 1])),
            in_word ==> words(line@.subrange(0, i as int)) == out@.map_values(|w: String| w@).push(cur@),
            !in_word ==> words(line@.subrange(0, i as int)) == out@.map_values(|w: String| w@),
        decreases n - i,
    {
        let c = line.get_char(i);
        let ghost pre = line@.subrange(0, i as int);
        let ghost pre1 = line@.subrange(0, i as int + 1);
        assert(pre1.drop_last() =~= pre);
        assert(pre1.last() == c);
        let ghost before = out@.map_values(|w: String| w@);
        if is_whitespace_char(c) {
            if in_word {
                let w = cur;
                cur = String::new();
                out.push(w);
                assert(out@.map_values(|w: String| w@) =~= before.push(w@));
            }
            in_word = false;
        } else {
            if in_word {
                assert(i >= 1 && pre1[i - 1] == line@[i - 1]);
                assert(words(pre).len() > 0);
                push_char(&mut cur, c);
                assert(words(pre1) =~= before.push(cur@));
            } else {
                if i >= 1 {
                    assert(pre1[i - 1] == line@[i - 1]);
                }
                cur = String::new();
                push_char(&mut cur, c);
                assert(cur@ =~= seq![c]);
            }
            in_word = true;
        }
        i = i + 1;
    }
    assert(line@.subrange(0, i as int) =~= line@);
    if in_word {
        let ghost before = out@.map_values(|w: String| w@);
        out.push(cur);
        assert(out@.map_values(|w: String| w@) =~= before.push(cur@));
    }
    out
}

// ───────────────────────────── commands ─────────────────────────────

/// The shell commands. The words of the line carry their arguments: the program and
/// its arguments for `Run`, the path for file commands, the value for `sched`
/// settings, and so on.
#[derive(Debug, Clone, Copy, PartialEq, Eq, Structural)]
pub enum ConsoleCommand {
    Empty,
    Help,
    Ps,
    Kill,
    Whoami,
    Su,
    Metrics,
    Run,
    Programs,
    BinInfo,
    BinValidate,
    BinPrepare,
    BinMap,
    BinBack,
    BinPageTable,
    BinUserCtx,
    BinPlans,
    BinMappings,
    Frames,
    Ls,
    Cat,
    Touch,
    Write,
    WriteUsage,
    Rm,
    Stat,
    Chmod,
    Mount,
    MountBlock,
    Format,
    FsInfo,
    Devices,
    BlkList,
    BlkInfo,
    SchedShow,
    SchedQuantum,
    SchedFairness,
    SchedMaxProc,
    Unknown,
}

/// The command a line of `ws` words asks for.
pub open spec fn command_kind(ws: Seq<Seq<char>>) -> ConsoleCommand {
    let n = ws.len();
    if n == 0 {
        ConsoleCommand::Empty
    } else {
        let w0 = ws[0];
        let w1 = if n >= 2 { ws[1] } else { Seq::empty() };
        command_of(n, w0, w1)
    }
}

pub open spec fn command_of(n: nat, w0: Seq<char>, w1: Seq<char>) -> ConsoleCommand {
    if n == 1 && w0 == "help"@ {
        ConsoleCommand::Help
    } else if n == 1 && w0 == "ps"@ {
        ConsoleCommand::Ps
    } else if n == 2 && w0 == "kill"@ {
        ConsoleCommand::Kill
    } else if n == 1 && w0 == "whoami"@ {
        ConsoleCommand::Whoami
    } else if n == 2 && w0 == "su"@ {
        ConsoleCommand::Su
    } else if n == 1 && w0 == "metrics"@ {
        ConsoleCommand::Metrics
    } else if n >= 2 && w0 == "run"@ {
        ConsoleCommand::Run
    } else if (n == 1 && w0 == "programs"@) || (n == 2 && w0 == "bin"@ && w1 == "list"@) {
        ConsoleCommand::Programs
    } else if n == 3 && w0 == "bin"@ && w1 == "info"@ {
        ConsoleCommand::BinInfo
    } else if n == 3 && w0 == "bin"@ && w1 == "validate"@ {
        ConsoleCommand::BinValidate
    } else if n == 3 && w0 == "bin"@ && w1 == "prepare"@ {
        ConsoleCommand::BinPrepare
    } else if n == 3 && w0 == "bin"@ && w1 == "map"@ {
        ConsoleCommand::BinMap
    } else if n == 3 && w0 == "bin"@ && w1 == "back"@ {
        ConsoleCommand::BinBack
    } else if n == 3 && w0 == "bin"@ && w1 == "pagetable"@ {
        ConsoleCommand::BinPageTable
    } else if n == 3 && w0 == "bin"@ && w1 == "userctx"@ {
        ConsoleCommand::BinUserCtx
    } else if (n == 2 && w0 == "bin"@ && w1 == "plans"@) || (n == 1 && w0 == "loadplans"@) {
        ConsoleCommand::BinPlans
    } else if n == 2 && w0 == "bin"@ && w1 == "mappings"@ {
        ConsoleCommand::BinMappings
    } else if n == 1 && w0 == "frames"@ {
        ConsoleCommand::Frames
    } else if n == 1 && w0 == "ls"@ {
        ConsoleCommand::Ls
    } else if n == 2 && w0 == "cat"@ {
        ConsoleCommand::Cat
    } else if n == 2 && w0 == "touch"@ {
        ConsoleCommand::Touch
    } else if n >= 3 && w0 == "write"@ {
        ConsoleCommand::Write
    } else if n >= 1 && w0 == "write"@ {
        ConsoleCommand::WriteUsage
    } else if n == 2 && w0 == "rm"@ {
        ConsoleCommand::Rm
    } else if n == 2 && w0 == "stat"@ {
        ConsoleCommand::Stat
    } else if n == 3 && w0 == "chmod"@ {
        ConsoleCommand::Chmod
    } else if n == 1 && w0 == "mount"@ {
        ConsoleCommand::Mount
    } else if n == 2 && w0 == "mount"@ {
        ConsoleCommand::MountBlock
    } else if n == 1 && w0 == "format"@ {
        ConsoleCommand::Format
    } else if n == 1 && w0 == "fsinfo"@ {
        ConsoleCommand::FsInfo
    } else if n == 1 && w0 == "devices"@ {
        ConsoleCommand::Devices
    } else if n == 2 && w0 == "blk"@ && w1 == "list"@ {
        ConsoleCommand::BlkList
    } else if n == 3 && w0 == "blk"@ && w1 == "info"@ {
        ConsoleCommand::BlkInfo
    } else if n == 2 && w0 == "sched"@ && w1 == "show"@ {
        ConsoleCommand::SchedShow
    } else if n == 3 && w0 == "sched"@ && w1 == "quantum"@ {
        ConsoleCommand::SchedQuantum
    } else if n == 3 && w0 == "sched"@ && w1 == "fairness"@ {
        ConsoleCommand::SchedFairness
    } else if n == 3 && w0 == "sched"@ && w1 == "maxproc"@ {
        ConsoleCommand::SchedMaxProc
    } else {
        ConsoleCommand::Unknown
    }
}

/// Which command each shell keyword names: for every line of words, the first
/// word (with the second for `bin`, `blk` and `sched`) and the number of words
/// fix the command, and a line whose first word is no keyword is unknown.
#[verifier::spinoff_prover]
#[verifier::rlimit(60)]
pub proof fn law_console_keywords(ws: Seq<Seq<char>>)
    ensures
        ws.len() == 1 && ws[0] == "help"@ ==> command_kind(ws) == ConsoleCommand::Help,
        ws.len() == 1 && ws[0] == "ps"@ ==> command_kind(ws) == ConsoleCommand::Ps,
        ws.len() == 2 && ws[0] == "kill"@ ==> command_kind(ws) == ConsoleCommand::Kill,
        ws.len() == 1 && ws[0] == "whoami"@ ==> command_kind(ws) == ConsoleCommand::Whoami,
        ws.len() == 2 && ws[0] == "su"@ ==> command_kind(ws) == ConsoleCommand::Su,
        ws.len() == 1 && ws[0] == "metrics"@ ==> command_kind(ws) == ConsoleCommand::Metrics,
        ws.len() >= 2 && ws[0] == "run"@ ==> command_kind(ws) == ConsoleCommand::Run,
        ws.len() == 1 && ws[0] == "programs"@ ==> command_kind(ws) == ConsoleCommand::Programs,
        ws.len() == 2 && ws[0] == "bin"@ && ws[1] == "list"@ ==> command_kind(ws) == ConsoleCommand::Programs,
        ws.len() == 3 && ws[0] == "bin"@ && ws[1] == "info"@ ==> command_kind(ws) == ConsoleCommand::BinInfo,
        ws.len() == 3 && ws[0] == "bin"@ && ws[1] == "validate"@ ==> command_kind(ws) == ConsoleCommand::BinValidate,
        ws.len() == 3 && ws[0] == "bin"@ && ws[1] == "prepare"@ ==> command_kind(ws) == ConsoleCommand::BinPrepare,
        ws.len() == 3 && ws[0] == "bin"@ && ws[1] == "map"@ ==> command_kind(ws) == ConsoleCommand::BinMap,
        ws.len() == 3 && ws[0] == "bin"@ && ws[1] == "back"@ ==> command_kind(ws) == ConsoleCommand::BinBack,
        ws.len() == 3 && ws[0] == "bin"@ && ws[1] == "pagetable"@ ==> command_kind(ws) == ConsoleCommand::BinPageTable,
        ws.len() == 3 && ws[0] == "bin"@ && ws[1] == "userctx"@ ==> command_kind(ws) == ConsoleCommand::BinUserCtx,
        ws.len() == 2 && ws[0] == "bin"@ && ws[1] == "plans"@ ==> command_kind(ws) == ConsoleCommand::BinPlans,
        ws.len() == 1 && ws[0] == "loadplans"@ ==> command_kind(ws) == ConsoleCommand::BinPlans,
        ws.len() == 2 && ws[0] == "bin"@ && ws[1] == "mappings"@ ==> command_kind(ws) == ConsoleCommand::BinMappings,
        ws.len() == 1 && ws[0] == "frames"@ ==> command_kind(ws) == ConsoleCommand::Frames,
        ws.len() == 1 && ws[0] == "ls"@ ==> command_kind(ws) == ConsoleCommand::Ls,
        ws.len() == 2 && ws[0] == "cat"@ ==> command_kind(ws) == ConsoleCommand::Cat,
        ws.len() == 2 && ws[0] == "touch"@ ==> command_kind(ws) == ConsoleCommand::Touch,
        ws.len() >= 3 && ws[0] == "write"@ ==> command_kind(ws) == ConsoleCommand::Write,
        1 <= ws.len() <= 2 && ws[0] == "write"@ ==> command_kind(ws) == ConsoleCommand::WriteUsage,
        ws.len() == 2 && ws[0] == "rm"@ ==> command_kind(ws) == ConsoleCommand::Rm,
        ws.len() == 2 && ws[0] == "stat"@ ==> command_kind(ws) == ConsoleCommand::Stat,
        ws.len() == 3 && ws[0] == "chmod"@ ==> command_kind(ws) == ConsoleCommand::Chmod,
        ws.len() == 1 && ws[0] == "mount"@ ==> command_kind(ws) == ConsoleCommand::Mount,
        ws.len() == 2 && ws[0] == "mount"@ ==> command_kind(ws) == ConsoleCommand::MountBlock,
        ws.len() == 1 && ws[0] == "format"@ ==> command_kind(ws) == ConsoleCommand::Format,
        ws.len() == 1 && ws[0] == "fsinfo"@ ==> command_kind(ws) == ConsoleCommand::FsInfo,
        ws.len() == 1 && ws[0] == "devices"@ ==> command_kind(ws) == ConsoleCommand::Devices,
        ws.len() == 2 && ws[0] == "blk"@ && ws[1] == "list"@ ==> command_kind(ws) == ConsoleCommand::BlkList,
        ws.len() == 3 && ws[0] == "blk"@ && ws[1] == "info"@ ==> command_kind(ws) == ConsoleCommand::BlkInfo,
        ws.len() == 2 && ws[0] == "sched"@ && ws[1] == "show"@ ==> command_kind(ws) == ConsoleCommand::SchedShow,
        ws.len() == 3 && ws[0] == "sched"@ && ws[1] == "quantum"@ ==> command_kind(ws) == ConsoleCommand::SchedQuantum,
        ws.len() == 3 && ws[0] == "sched"@ && ws[1] == "fairness"@ ==> command_kind(ws) == ConsoleCommand::SchedFairness,
        ws.len() == 3 && ws[0] == "sched"@ && ws[1] == "maxproc"@ ==> command_kind(ws) == ConsoleCommand::SchedMaxProc,
        ws.len() >= 1 && ws[0] != "bin"@ && ws[0] != "blk"@ && ws[0] != "cat"@ && ws[0] != "chmod"@ && ws[0] != "devices"@ && ws[0] != "format"@ && ws[0] != "frames"@ && ws[0] != "fsinfo"@ && ws[0] != "help"@ && ws[0] != "kill"@ && ws[0] != "loadplans"@ && ws[0] != "ls"@ && ws[0] != "metrics"@ && ws[0] != "mount"@ && ws[0] != "programs"@ && ws[0] != "ps"@ && ws[0] != "rm"@ && ws[0] != "run"@ && ws[0] != "sched"@ && ws[0] != "stat"@ && ws[0] != "su"@ && ws[0] != "touch"@ && ws[0] != "whoami"@ && ws[0] != "write"@ ==> command_kind(ws) == ConsoleCommand::Unknown,
        ws.len() == 0 ==> command_kind(ws) == ConsoleCommand::Empty,
{
    reveal_strlit("back");
    assert("back"@.len() == 4);
    assert("back"@[0] == 'b' && "back"@[1] == 'a' && "back"@[2] == 'c' && "back"@[3] == 'k');
    reveal_strlit("bin");
    assert("bin"@.len() == 3);
    assert("bin"@[0] == 'b' && "bin"@[1] == 'i' && "bin"@[2] == 'n');
    reveal_strlit("blk");
    assert("blk"@.len() == 3);
    assert("blk"@[0] == 'b' && "blk"@[1] == 'l' && "blk"@[2] == 'k');
    reveal_strlit("cat");
    assert("cat"@.len() == 3);
    assert("cat"@[0] == 'c' && "cat"@[1] == 'a' && "cat"@[2] == 't');
    reveal_strlit("chmod");
    assert("chmod"@.len() == 5);
    assert("chmod"@[0] == 'c' && "chmod"@[1] == 'h' && "chmod"@[2] == 'm' && "chmod"@[3] == 'o' && "chmod"@[4] == 'd');
    reveal_strlit("devices");
    assert("devices"@.len() == 7);
    assert("devices"@[0] == 'd' && "devices"@[1] == 'e' && "devices"@[2] == 'v' && "devices"@[3] == 'i' && "devices"@[4] == 'c' && "devices"@[5] == 'e' && "devices"@[6] == 's');
    reveal_strlit("fairness");
    assert("fairness"@.len() == 8);
    assert("fairness"@[0] == 'f' && "fairness"@[1] == 'a' && "fairness"@[2] == 'i' && "fairness"@[3] == 'r' && "fairness"@[4] == 'n' && "fairness"@[5] == 'e' && "fairness"@[6] == 's' && "fairness"@[7] == 's');
    reveal_strlit("format");
    assert("format"@.len() == 6);
    assert("format"@[0] == 'f' && "format"@[1] == 'o' && "format"@[2] == 'r' && "format"@[3] == 'm' && "format"@[4] == 'a' && "format"@[5] == 't');
    reveal_strlit("frames");
    assert("frames"@.len() == 6);
    assert("frames"@[0] == 'f' && "frames"@[1] == 'r' && "frames"@[2] == 'a' && "frames"@[3] == 'm' && "frames"@[4] == 'e' && "frames"@[5] == 's');
    reveal_strlit("fsinfo");
    assert("fsinfo"@.len() == 6);
    assert("fsinfo"@[0] == 'f' && "fsinfo"@[1] == 's' && "fsinfo"@[2] == 'i' && "fsinfo"@[3] == 'n' && "fsinfo"@[4] == 'f' && "fsinfo"@[5] == 'o');
    reveal_strlit("help");
    assert("help"@.len() == 4);
    assert("help"@[0] == 'h' && "help"@[1] == 'e' && "help"@[2] == 'l' && "help"@[3] == 'p');
    reveal_strlit("info");
    assert("info"@.len() == 4);
    assert("info"@[0] == 'i' && "info"@[1] == 'n' && "info"@[2] == 'f' && "info"@[3] == 'o');
    reveal_strlit("kill");
    assert("kill"@.len() == 4);
    assert("kill"@[0] == 'k' && "kill"@[1] == 'i' && "kill"@[2] == 'l' && "kill"@[3] == 'l');
    reveal_strlit("list");
    assert("list"@.len() == 4);
    assert("list"@[0] == 'l' && "list"@[1] == 'i' && "list"@[2] == 's' && "list"@[3] == 't');
    reveal_strlit("loadplans");
    assert("loadplans"@.len() == 9);
    assert("loadplans"@[0] == 'l' && "loadplans"@[1] == 'o' && "loadplans"@[2] == 'a' && "loadplans"@[3] == 'd' && "loadplans"@[4] == 'p' && "loadplans"@[5] == 'l' && "loadplans"@[6] == 'a' && "loadplans"@[7] == 'n' && "loadplans"@[8] == 's');
    reveal_strlit("ls");
    assert("ls"@.len() == 2);
    assert("ls"@[0] == 'l' && "ls"@[1] == 's');
    reveal_strlit("map");
    assert("map"@.len() == 3);
    assert("map"@[0] == 'm' && "map"@[1] == 'a' && "map"@[2] == 'p');
    reveal_strlit("mappings");
    assert("mappings"@.len() == 8);
    assert("mappings"@[0] == 'm' && "mappings"@[1] == 'a' && "mappings"@[2] == 'p' && "mappings"@[3] == 'p' && "mappings"@[4] == 'i' && "mappings"@[5] == 'n' && "mappings"@[6] == 'g' && "mappings"@[7] == 's');
    reveal_strlit("maxproc");
    assert("maxproc"@.len() == 7);
    assert("maxproc"@[0] == 'm' && "maxproc"@[1] == 'a' && "maxproc"@[2] == 'x' && "maxproc"@[3] == 'p' && "maxproc"@[4] == 'r' && "maxproc"@[5] == 'o' && "maxproc"@[6] == 'c');
    reveal_strlit("metrics");
    assert("metrics"@.len() == 7);
    assert("metrics"@[0] == 'm' && "metrics"@[1] == 'e' && "metrics"@[2] == 't' && "metrics"@[3] == 'r' && "metrics"@[4] == 'i' && "metrics"@[5] == 'c' && "metrics"@[6] == 's');
    reveal_strlit("mount");
    assert("mount"@.len() == 5);
    assert("mount"@[0] == 'm' && "mount"@[1] == 'o' && "mount"@[2] == 'u' && "mount"@[3] == 'n' && "mount"@[4] == 't');
    reveal_strlit("pagetable");
    assert("pagetable"@.len() == 9);
    assert("pagetable"@[0] == 'p' && "pagetable"@[1] == 'a' && "pagetable"@[2] == 'g' && "pagetable"@[3] == 'e' && "pagetable"@[4] == 't' && "pagetable"@[5] == 'a' && "pagetable"@[6] == 'b' && "pagetable"@[7] == 'l' && "pagetable"@[8] == 'e');
    reveal_strlit("plans");
    assert("plans"@.len() == 5);
    assert("plans"@[0] == 'p' && "plans"@[1] == 'l' && "plans"@[2] == 'a' && "plans"@[3] == 'n' && "plans"@[4] == 's');
    reveal_strlit("prepare");
    assert("prepare"@.len() == 7);
    assert("prepare"@[0] == 'p' && "prepare"@[1] == 'r' && "prepare"@[2] == 'e' && "prepare"@[3] == 'p' && "prepare"@[4] == 'a' && "prepare"@[5] == 'r' && "prepare"@[6] == 'e');
    reveal_strlit("programs");
    assert("programs"@.len() == 8);
    assert("programs"@[0] == 'p' && "programs"@[1] == 'r' && "programs"@[2] == 'o' && "programs"@[3] == 'g' && "programs"@[4] == 'r' && "programs"@[5] == 'a' && "programs"@[6] == 'm' && "programs"@[7] == 's');
    reveal_strlit("ps");
    assert("ps"@.len() == 2);
    assert("ps"@[0] == 'p' && "ps"@[1] == 's');
    reveal_strlit("quantum");
    assert("quantum"@.len() == 7);
    assert("quantum"@[0] == 'q' && "quantum"@[1] == 'u' && "quantum"@[2] == 'a' && "quantum"@[3] == 'n' && "quantum"@[4] == 't' && "quantum"@[5] == 'u' && "quantum"@[6] == 'm');
    reveal_strlit("rm");
    assert("rm"@.len() == 2);
    assert("rm"@[0] == 'r' && "rm"@[1] == 'm');
    reveal_strlit("run");
    assert("run"@.len() == 3);
    assert("run"@[0] == 'r' && "run"@[1] == 'u' && "run"@[2] == 'n');
    reveal_strlit("sched");
    assert("sched"@.len() == 5);
    assert("sched"@[0] == 's' && "sched"@[1] == 'c' && "sched"@[2] == 'h' && "sched"@[3] == 'e' && "sched"@[4] == 'd');
    reveal_strlit("show");
    assert("show"@.len() == 4);
    assert("show"@[0] == 's' && "show"@[1] == 'h' && "show"@[2] == 'o' && "show"@[3] == 'w');
    reveal_strlit("stat");
    assert("stat"@.len() == 4);
    assert("stat"@[0] == 's' && "stat"@[1] == 't' && "stat"@[2] == 'a' && "stat"@[3] == 't');
    reveal_strlit("su");
    assert("su"@.len() == 2);
    assert("su"@[0] == 's' && "su"@[1] == 'u');
    reveal_strlit("touch");
    assert("touch"@.len() == 5);
    assert("touch"@[0] == 't' && "touch"@[1] == 'o' && "touch"@[2] == 'u' && "touch"@[3] == 'c' && "touch"@[4] == 'h');
    reveal_strlit("userctx");
    assert("userctx"@.len() == 7);
    assert("userctx"@[0] == 'u' && "userctx"@[1] == 's' && "userctx"@[2] == 'e' && "userctx"@[3] == 'r' && "userctx"@[4] == 'c' && "userctx"@[5] == 't' && "userctx"@[6] == 'x');
    reveal_strlit("validate");
    assert("validate"@.len() == 8);
    assert("validate"@[0] == 'v' && "validate"@[1] == 'a' && "validate"@[2] == 'l' && "validate"@[3] == 'i' && "validate"@[4] == 'd' && "validate"@[5] == 'a' && "validate"@[6] == 't' && "validate"@[7] == 'e');
    reveal_strlit("whoami");
    assert("whoami"@.len() == 6);
    assert("whoami"@[0] == 'w' && "whoami"@[1] == 'h' && "whoami"@[2] == 'o' && "whoami"@[3] == 'a' && "whoami"@[4] == 'm' && "whoami"@[5] == 'i');
    reveal_strlit("write");
    assert("write"@.len() == 5);
    assert("write"@[0] == 'w' && "write"@[1] == 'r' && "write"@[2] == 'i' && "write"@[3] == 't' && "write"@[4] == 'e');
}

fn word_is(words: &Vec<String>, i: usize, lit: &str) -> (r: bool)
    ensures
        r == (i < words@.len() && words@[i as int]@ == lit@),
{
    i < words.len() && crate::task::program_loader::str_eq(words[i].as_str(), lit)
}

/// Splits a console line into words and recognises the command.
pub fn parse_console_command(line: &str) -> (r: (ConsoleCommand, Vec<String>))
    ensures
        r.1@.map_values(|w: String| w@) == words(line@),
        r.0 == command_kind(words(line@)),
{
    let words = split_whitespace(line);
    let ghost ws = words@.map_values(|w: String| w@);
    let n = words.len();
    if n == 0 {
        return (ConsoleCommand::Empty, words);
    }
    proof {
        assert(ws[0] == words@[0]@);
        if n >= 2 {
            assert(ws[1] == words@[1]@);
        }
    }
    let kind = command_of_words(&words);
    (kind, words)
}

fn command_of_words(words: &Vec<String>) -> (r: ConsoleCommand)
    requires
        words@.len() >= 1,
    ensures
        r == command_of(
            words@.len(),
            words@[0]@,
            if words@.len() >= 2 { words@[1]@ } else { Seq::empty() },
        ),
{
    let n = words.len();
    proof {
        reveal_strlit("");
    }
    let ghost w1 = if words@.len() >= 2 { words@[1]@ } else { Seq::<char>::empty() };
    assert(n < 2 ==> forall|lit: &str| lit@.len() > 0 ==> w1 != lit@);
    if n == 1 && word_is(words, 0, "help") {
        ConsoleCommand::Help
    } else if n == 1 && word_is(words, 0, "ps") {
        ConsoleCommand::Ps
    } else if n == 2 && word_is(words, 0, "kill") {
        ConsoleCommand::Kill
    } else if n == 1 && word_is(words, 0, "whoami") {
        ConsoleCommand::Whoami
    } else if n == 2 && word_is(words, 0, "su") {
        ConsoleCommand::Su
    } else if n == 1 && word_is(words, 0, "metrics") {
        ConsoleCommand::Metrics
    } else if n >= 2 && word_is(words, 0, "run") {
        ConsoleCommand::Run
    } else if (n == 1 && word_is(words, 0, "programs")) || (n == 2 && word_is(words, 0, "bin") && word_is(words, 1, "list")) {
        ConsoleCommand::Programs
    } else if n == 3 && word_is(words, 0, "bin") && word_is(words, 1, "info") {
        ConsoleCommand::BinInfo
    } else if n == 3 && word_is(words, 0, "bin") && word_is(words, 1, "validate") {
        ConsoleCommand::BinValidate
    } else if n == 3 && word_is(words, 0, "bin") && word_is(words, 1, "prepare") {
        ConsoleCommand::BinPrepare
    } else if n == 3 && word_is(words, 0, "bin") && word_is(words, 1, "map") {
        ConsoleCommand::BinMap
    } else if n == 3 && word_is(words, 0, "bin") && word_is(words, 1, "back") {
        ConsoleCommand::BinBack
    } else if n == 3 && word_is(words, 0, "bin") && word_is(words, 1, "pagetable") {
        ConsoleCommand::BinPageTable
    } else if n == 3 && word_is(words, 0, "bin") && word_is(words, 1, "userctx") {
        ConsoleCommand::BinUserCtx
    } else if (n == 2 && word_is(words, 0, "bin") && word_is(words, 1, "plans")) || (n == 1 && word_is(words, 0, "loadplans")) {
        ConsoleCommand::BinPlans
    } else if n == 2 && word_is(words, 0, "bin") && word_is(words, 1, "mappings") {
        ConsoleCommand::BinMappings
    } else if n == 1 && word_is(words, 0, "frames") {
        ConsoleCommand::Frames
    } else if n == 1 && word_is(words, 0, "ls") {
        ConsoleCommand::Ls
    } else if n == 2 && word_is(words, 0, "cat") {
        ConsoleCommand::Cat
    } else if n == 2 && word_is(words, 0, "touch") {
        ConsoleCommand::Touch
    } else if n >= 3 && word_is(words, 0, "write") {
        ConsoleCommand::Write
    } else if n >= 1 && word_is(words, 0, "write") {
        ConsoleCommand::WriteUsage
    } else if n == 2 && word_is(words, 0, "rm") {
        ConsoleCommand::Rm
    } else if n == 2 && word_is(words, 0, "stat") {
        ConsoleCommand::Stat
    } else if n == 3 && word_is(words, 0, "chmod") {
        ConsoleCommand::Chmod
    } else if n == 1 && word_is(words, 0, "mount") {
        ConsoleCommand::Mount
    } else if n == 2 && word_is(words, 0, "mount") {
        ConsoleCommand::MountBlock
    } else if n == 1 && word_is(words, 0, "format") {
        ConsoleCommand::Format
    } else if n == 1 && word_is(words, 0, "fsinfo") {
        ConsoleCommand::FsInfo
    } else if n == 1 && word_is(words, 0, "devices") {
        ConsoleCommand::Devices
    } else if n == 2 && word_is(words, 0, "blk") && word_is(words, 1, "list") {
        ConsoleCommand::BlkList
    } else if n == 3 && word_is(words, 0, "blk") && word_is(words, 1, "info") {
        ConsoleCommand::BlkInfo
    } else if n == 2 && word_is(words, 0, "sched") && word_is(words, 1, "show") {
        ConsoleCommand::SchedShow
    } else if n == 3 && word_is(words, 0, "sched") && word_is(words, 1, "quantum") {
        ConsoleCommand::SchedQuantum
    } else if n == 3 && word_is(words, 0, "sched") && word_is(words, 1, "fairness") {
        ConsoleCommand::SchedFairness
    } else if n == 3 && word_is(words, 0, "sched") && word_is(words, 1, "maxproc") {
        ConsoleCommand::SchedMaxProc
    } else {
        ConsoleCommand::Unknown
    }
}

// ───────────────────────────── line editing ─────────────────────────────

/// What a typed character asks the console to do.
#[derive(Debug, Clone, Copy, PartialEq, Eq, Structural)]
pub enum ConsoleAction {
    /// Nothing to show or run.
    Nothing,
    /// Show the character.
    Echo(char),
    /// Erase the last shown character.
    Erase,
    /// Run the submitted line (trimmed), held by the console until taken.
    Submit,
}

/// The current input line.
pub struct ConsoleLine {
    chars: Vec<char>,
    submitted: String,
}

/// `s` without leading and trailing white space.
pub open spec fn trimmed(s: Seq<char>) -> Seq<char> {
    let lead = lead_ws(s);
    let rest = s.subrange(lead, s.len() as int);
    rest.subrange(0, rest.len() - trail_ws(rest))
}

/// Number of leading white-space characters.
pub open spec fn lead_ws(s: Seq<char>) -> int
    decreases s.len(),
{
    if s.len() > 0 && is_ws(s[0]) {
        1 + lead_ws(s.drop_first())
    } else {
        0
    }
}

/// Number of trailing white-space characters.
pub open spec fn trail_ws(s: Seq<char>) -> int
    decreases s.len(),
{
    if s.len() > 0 && is_ws(s.last()) {
        1 + trail_ws(s.drop_last())
    } else {
        0
    }
}

proof fn lemma_lead_ws(s: Seq<char>)
    ensures
        0 <= lead_ws(s) <= s.len(),
        forall|i: int| 0 <= i < lead_ws(s) ==> is_ws(#[trigger] s[i]),
        lead_ws(s) < s.len() ==> !is_ws(s[lead_ws(s)]),
    decreases s.len(),
{
    if s.len() > 0 && is_ws(s[0]) {
        lemma_lead_ws(s.drop_first());
        assert forall|i: int| 0 <= i < lead_ws(s) implies is_ws(#[trigger] s[i]) by {
            if i > 0 {
                assert(s[i] == s.drop_first()[i - 1]);
            }
        }
    }
}

proof fn lemma_trail_ws(s: Seq<char>)
    ensures
        0 <= trail_ws(s) <= s.len(),
        forall|i: int| s.len() - trail_ws(s) <= i < s.len() ==> is_ws(#[trigger] s[i]),
        trail_ws(s) < s.len() ==> !is_ws(s[s.len() - 1 - trail_ws(s)]),
    decreases s.len(),
{
    if s.len() > 0 && is_ws(s.last()) {
        lemma_trail_ws(s.drop_last());
        assert forall|i: int| s.len() - trail_ws(s) <= i < s.len() implies is_ws(#[trigger] s[i]) by {
            if i < s.len() - 1 {
                assert(s[i] == s.drop_last()[i]);
            }
        }
    }
}

impl ConsoleLine {
    /// The characters typed since the last submission.
    pub closed spec fn line(&self) -> Seq<char> {
        self.chars@
    }

    /// The last submitted command.
    pub closed spec fn last_submitted(&self) -> Seq<char> {
        self.submitted@
    }

    pub fn new() -> (r: Self)
        ensures
            r.line() == Seq::<char>::empty(),
            r.last_submitted() == Seq::<char>::empty(),
    {
        ConsoleLine { chars: Vec::new(), submitted: String::new() }
    }

    /// Handles one typed character: line feed or carriage return submits the trimmed
    /// line (an empty one is dropped), backspace and delete erase the last character,
    /// any other character is appended.
    pub fn handle_char(&mut self, c: char) -> (r: ConsoleAction)
        ensures
            (c == '\n' || c == '\r') ==> final(self).line() == Seq::<char>::empty() && if trimmed(
                old(self).line(),
            ).len() == 0 {
                r == ConsoleAction::Nothing && final(self).last_submitted() == old(self).last_submitted()
            } else {
                r == ConsoleAction::Submit && final(self).last_submitted() == trimmed(old(self).line())
            },
            (c == '\u{8}' || c == '\u{7f}') ==> final(self).last_submitted() == old(self).last_submitted() && if old(
                self,
            ).line().len() == 0 {
                r == ConsoleAction::Nothing && final(self).line() == old(self).line()
            } else {
                r == ConsoleAction::Erase && final(self).line() == old(self).line().drop_last()
            },
            !(c == '\n' || c == '\r' || c == '\u{8}' || c == '\u{7f}') ==> r == ConsoleAction::Echo(c)
                && final(self).line() == old(self).line().push(c) && final(self).last_submitted() == old(
                self,
            ).last_submitted(),
    {
        if c == '\n' || c == '\r' {
            let ghost s = self.chars@;
            let mut lead: usize = 0;
            let n = self.chars.len();
            proof {
                lemma_lead_ws(s);
            }
            while lead < n && is_whitespace_char(self.chars[lead])
                invariant
                    s == self.chars@,
                    n == s.len(),
                    lead <= n,
                    forall|i: int| 0 <= i < lead ==> is_ws(#[trigger] s[i]),
                    0 <= lead_ws(s) <= s.len(),
                    forall|i: int| 0 <= i < lead_ws(s) ==> is_ws(#[trigger] s[i]),
                    lead_ws(s) < s.len() ==> !is_ws(s[lead_ws(s)]),
                    lead <= lead_ws(s),
                decreases n - lead,
            {
                lead = lead + 1;
            }
            assert(lead == lead_ws(s));
            let ghost rest = s.subrange(lead as int, n as int);
            proof {
                lemma_trail_ws(rest);
            }
            let mut end: usize = n;
            while end > lead && is_whitespace_char(self.chars[end - 1])
                invariant
                    s == self.chars@,
                    n == s.len(),
                    lead <= end <= n,
                    rest == s.subrange(lead as int, n as int),
                    forall|i: int| end <= i < n ==> is_ws(#[trigger] s[i]),
                    0 <= trail_ws(rest) <= rest.len(),
                    forall|i: int| rest.len() - trail_ws(rest) <= i < rest.len() ==> is_ws(#[trigger] rest[i]),
                    trail_ws(rest) < rest.len() ==> !is_ws(rest[rest.len() - 1 - trail_ws(rest)]),
                    n - end <= trail_ws(rest),
                decreases end,
            {
                assert(rest[end - 1 - lead] == s[end - 1]);
                end = end - 1;
            }
            assert(n - end == trail_ws(rest)) by {
                if n - end < trail_ws(rest) {
                    assert(rest[end - 1 - lead] == s[end - 1]);
                }
            }
            let mut command = String::new();
            let mut i: usize = lead;
            while i < end
                invariant
                    s == self.chars@,
                    lead <= i <= end <= s.len(),
                    command@ == s.subrange(lead as int, i as int),
                decreases end - i,
            {
                push_char(&mut command, self.chars[i]);
                assert(command@ =~= s.subrange(lead as int, i as int + 1));
                i = i + 1;
            }
            assert(command@ =~= trimmed(s));
            self.chars = Vec::new();
            if command.unicode_len() == 0 {
                return ConsoleAction::Nothing;
            }
            self.submitted = command;
            ConsoleAction::Submit
        } else if c == '\u{8}' || c == '\u{7f}' {
            if self.chars.len() == 0 {
                return ConsoleAction::Nothing;
            }
            let _ = self.chars.pop();
            ConsoleAction::Erase
        } else {
            self.chars.push(c);
            ConsoleAction::Echo(c)
        }
    }

    /// A copy of the last submitted command.
    pub fn submitted(&self) -> (r: String)
        ensures
            r@ == self.last_submitted(),
    {
        self.submitted.clone()
    }
}

/// Why a `sched quantum`, `sched fairness` or `sched maxproc` update was not applied.
#[derive(Debug, Clone, Copy, PartialEq, Eq, Structural)]
pub enum SchedUpdateError {
    /// The value is not a number the setting can hold.
    InvalidValue,
    /// The scheduler refused the resulting configuration.
    Rejected(SchedulerConfigError),
}

/// The setting that a scheduler console command changes, as the configuration
/// `current` with that setting replaced by `value`; `None` for any other command
/// or a `maxproc` value beyond `usize`.
pub open spec fn sched_update(
    current: SchedulerRuntimeConfig,
    cmd: ConsoleCommand,
    value: u64,
) -> Option<SchedulerRuntimeConfig> {
    match cmd {
        ConsoleCommand::SchedQuantum => Some(SchedulerRuntimeConfig { quantum_ticks: value, ..current }),
        ConsoleCommand::SchedFairness => Some(
            SchedulerRuntimeConfig { fairness_check_interval_ticks: value, ..current },
        ),
        ConsoleCommand::SchedMaxProc => if value <= usize::MAX {
            Some(SchedulerRuntimeConfig { max_processes: value as usize, ..current })
        } else {
            None
        },
        _ => None,
    }
}

/// Whether `cmd` changes one scheduler setting.
pub open spec fn is_sched_update(cmd: ConsoleCommand) -> bool {
    cmd is SchedQuantum || cmd is SchedFairness || cmd is SchedMaxProc
}

/// Applies a scheduler console command with its value word `arg`: the current
/// configuration with the named setting replaced, validated and installed as a
/// whole. `None` for a command that changes no scheduler setting; a value that is
/// not a number, or one the scheduler refuses, leaves the scheduler as it was.
pub fn apply_sched_command(s: &mut SchedulerState, cmd: ConsoleCommand, arg: &str) -> (r: Option<
    Result<SchedulerRuntimeConfig, SchedUpdateError>,
>)
    ensures
        !is_sched_update(cmd) ==> r is None && *final(s) == *old(s),
        is_sched_update(cmd) ==> match parsed_u64(arg@) {
            None => r == Some(Err::<SchedulerRuntimeConfig, SchedUpdateError>(SchedUpdateError::InvalidValue))
                && *final(s) == *old(s),
            Some(v) => match sched_update(config_of(*old(s)), cmd, v) {
                None => r == Some(Err::<SchedulerRuntimeConfig, SchedUpdateError>(SchedUpdateError::InvalidValue))
                    && *final(s) == *old(s),
                Some(c) => match config_error(c) {
                    Some(e) => r == Some(Err::<SchedulerRuntimeConfig, SchedUpdateError>(SchedUpdateError::Rejected(e)))
                        && *final(s) == *old(s),
                    None => r == Some(Ok::<SchedulerRuntimeConfig, SchedUpdateError>(c)) && config_of(*final(s)) == c
                        && *final(s) == (SchedulerState {
                        quantum_ticks: c.quantum_ticks,
                        fairness_interval_ticks: c.fairness_check_interval_ticks,
                        max_processes: c.max_processes,
                        ..*old(s)
                    }),
                },
            },
        },
{
    let is_update = match cmd {
        ConsoleCommand::SchedQuantum | ConsoleCommand::SchedFairness | ConsoleCommand::SchedMaxProc => true,
        _ => false,
    };
    if !is_update {
        return None;
    }
    let value = match parse_u64(arg) {
        Some(v) => v,
        None => return Some(Err(SchedUpdateError::InvalidValue)),
    };
    let current = runtime_config(s);
    let config = match cmd {
        ConsoleCommand::SchedQuantum => SchedulerRuntimeConfig { quantum_ticks: value, ..current },
        ConsoleCommand::SchedFairness => SchedulerRuntimeConfig { fairness_check_interval_ticks: value, ..current },
        _ => {
            if value > usize::MAX as u64 {
                return Some(Err(SchedUpdateError::InvalidValue));
            }
            SchedulerRuntimeConfig { max_processes: value as usize, ..current }
        },
    };
    match apply_runtime_config(s, config) {
        Ok(c) => Some(Ok(c)),
        Err(e) => Some(Err(SchedUpdateError::Rejected(e))),
    }
}

} // verus!
