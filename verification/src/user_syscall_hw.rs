//! The hardware `syscall` entry: which syscalls user mode may make directly and the
//! bookkeeping around each one.

use vstd::prelude::*;
use crate::kernel_state::KernelState;
use crate::syscall::{SyscallError, SyscallId};
use crate::user_syscall::{
    dispatch_from_user, dispatch_return, dispatch_state, store_hw_syscall_return, error_code, HwReturnSlot, UserDispatch, UserRegisterFrame,
    UserSyscallReturn,
};

verus! {

/// The syscalls user mode may make through the hardware entry.
pub fn allowed_hw_syscalls() -> (r: [SyscallId; 6])
    ensures
        r@ == seq![
            SyscallId::GetTickCount,
            SyscallId::UserCopyProbe,
            SyscallId::ExitProcess,
            SyscallId::WaitProcess,
            SyscallId::ReadFileProbe,
            SyscallId::WriteFileProbe,
        ],
{
    let r = [
        SyscallId::GetTickCount,
        SyscallId::UserCopyProbe,
        SyscallId::ExitProcess,
        SyscallId::WaitProcess,
        SyscallId::ReadFileProbe,
        SyscallId::WriteFileProbe,
    ];
    assert(r@ =~= seq![
        SyscallId::GetTickCount,
        SyscallId::UserCopyProbe,
        SyscallId::ExitProcess,
        SyscallId::WaitProcess,
        SyscallId::ReadFileProbe,
        SyscallId::WriteFileProbe,
    ]);
    r
}

pub open spec fn hw_allowed(id: u64) -> bool {
    id == SyscallId::GetTickCount.number() || id == SyscallId::UserCopyProbe.number() || id
        == SyscallId::ExitProcess.number() || id == SyscallId::WaitProcess.number() || id
        == SyscallId::ReadFileProbe.number() || id == SyscallId::WriteFileProbe.number()
}

pub fn is_allowed_hw_syscall(id: u64) -> (r: bool)
    ensures
        r == hw_allowed(id),
{
    let allowed = allowed_hw_syscalls();
    let mut i: usize = 0;
    while i < 6
        invariant
            i <= 6,
            allowed@ == seq![
                SyscallId::GetTickCount,
                SyscallId::UserCopyProbe,
                SyscallId::ExitProcess,
                SyscallId::WaitProcess,
                SyscallId::ReadFileProbe,
                SyscallId::WriteFileProbe,
            ],
            forall|j: int| 0 <= j < i ==> (#[trigger] allowed@[j]).number() != id,
        decreases 6 - i,
    {
        if allowed[i].as_u64() == id {
            return true;
        }
        i = i + 1;
    }
    assert(allowed@[0].number() != id && allowed@[1].number() != id && allowed@[2].number() != id
        && allowed@[3].number() != id && allowed@[4].number() != id && allowed@[5].number() != id);
    false
}

/// Hardware syscall counters; each wraps on overflow.
#[derive(Debug, Clone, Copy, PartialEq, Eq, Structural)]
pub struct HwSyscallCounters {
    pub syscalls: u64,
    pub sysrets: u64,
    pub ready: bool,
    pub allowed: u64,
    pub rejected: u64,
}

pub open spec fn wrap_inc(x: u64) -> u64 {
    if x == u64::MAX {
        0
    } else {
        (x + 1) as u64
    }
}

/// (syscalls taken, sysrets done).
pub fn status(c: &HwSyscallCounters) -> (r: (u64, u64))
    ensures
        r == (c.syscalls, c.sysrets),
{
    (c.syscalls, c.sysrets)
}

pub fn mark_dispatch_table_ready(c: &mut HwSyscallCounters)
    ensures
        *final(c) == (HwSyscallCounters { ready: true, ..*old(c) }),
{
    c.ready = true;
}

/// (allowed, rejected, whether the dispatch table is ready).
pub fn dispatch_table_status(c: &HwSyscallCounters) -> (r: (u64, u64, bool))
    ensures
        r == (c.allowed, c.rejected, c.ready),
{
    (c.allowed, c.rejected, c.ready)
}

pub fn record_hw_syscall_completed(c: &mut HwSyscallCounters)
    ensures
        *final(c) == (HwSyscallCounters {
            syscalls: wrap_inc(old(c).syscalls),
            sysrets: wrap_inc(old(c).sysrets),
            ..*old(c)
        }),
{
    c.syscalls = c.syscalls.wrapping_add(1);
    c.sysrets = c.sysrets.wrapping_add(1);
}

/// Handles a syscall that entered through the hardware entry with `syscall_id` and
/// `arg0`: a syscall outside the allowed set is rejected and answered
/// `InvalidSyscall`; an allowed one is dispatched and its return recorded. Returns the
/// frame when the caller must still run the user-copy probe and call
/// [`finish_hw_copy_probe`].
pub fn handle_hw_syscall(
    k: &mut KernelState,
    c: &mut HwSyscallCounters,
    slot: &mut HwReturnSlot,
    syscall_id: u64,
    arg0: u64,
) -> (r: Option<UserRegisterFrame>)
    requires
        old(k).wf(),
    ensures
        final(k).wf(),
        !hw_allowed(syscall_id) ==> r is None && *final(k) == *old(k) && *final(c) == (HwSyscallCounters {
            rejected: wrap_inc(old(c).rejected),
            syscalls: wrap_inc(old(c).syscalls),
            ..*old(c)
        }) && *final(slot) == (HwReturnSlot {
            last_id: syscall_id,
            last_return: 0,
            last_error: error_code(Some(SyscallError::InvalidSyscall)),
        }),
        hw_allowed(syscall_id) && syscall_id == SyscallId::UserCopyProbe.number() ==> r == Some(
            UserRegisterFrame { syscall_id, arg0, return_value: 0, error: None },
        ) && *final(c) == (HwSyscallCounters { allowed: wrap_inc(old(c).allowed), ..*old(c) }) && *final(slot)
            == *old(slot) && *final(k) == *old(k),
        hw_allowed(syscall_id) && syscall_id != SyscallId::UserCopyProbe.number() ==> r is None && *final(c)
            == (HwSyscallCounters {
            allowed: wrap_inc(old(c).allowed),
            syscalls: wrap_inc(old(c).syscalls),
            sysrets: wrap_inc(old(c).sysrets),
            ..*old(c)
        }) && ({
            let frame = UserRegisterFrame { syscall_id, arg0, return_value: 0, error: None };
            let ret = dispatch_return(*old(k), frame);
            &&& dispatch_state(*old(k), *final(k), frame)
            &&& *final(slot) == (HwReturnSlot {
                last_id: ret.syscall_id,
                last_return: ret.return_value,
                last_error: error_code(ret.error),
            })
        }),
{
    if !is_allowed_hw_syscall(syscall_id) {
        c.rejected = c.rejected.wrapping_add(1);
        store_hw_syscall_return(
            slot,
            UserSyscallReturn {
                syscall_id,
                arg0,
                return_value: 0,
                error: Some(SyscallError::InvalidSyscall),
                returned_to_user: true,
            },
        );
        c.syscalls = c.syscalls.wrapping_add(1);
        return None;
    }
    c.allowed = c.allowed.wrapping_add(1);
    let frame = UserRegisterFrame { syscall_id, arg0, return_value: 0, error: None };
    let result = match dispatch_from_user(k, frame) {
        Ok(UserDispatch::Done(ret)) => ret,
        Ok(UserDispatch::CopyProbe(f)) => return Some(f),
        Err(_) => UserSyscallReturn {
            syscall_id,
            arg0,
            return_value: 0,
            error: Some(SyscallError::InvalidArgument),
            returned_to_user: true,
        },
    };
    store_hw_syscall_return(slot, result);
    c.syscalls = c.syscalls.wrapping_add(1);
    c.sysrets = c.sysrets.wrapping_add(1);
    None
}

/// Completes a hardware user-copy probe syscall with the probe's outcome.
pub fn finish_hw_copy_probe(c: &mut HwSyscallCounters, slot: &mut HwReturnSlot, frame: UserRegisterFrame, probe_ok: bool)
    ensures
        *final(slot) == (HwReturnSlot {
            last_id: frame.syscall_id,
            last_return: if probe_ok { 1 } else { 0 },
            last_error: 0,
        }),
        *final(c) == (HwSyscallCounters {
            syscalls: wrap_inc(old(c).syscalls),
            sysrets: wrap_inc(old(c).sysrets),
            ..*old(c)
        }),
{
    let ret = crate::user_syscall::finish_copy_probe(frame, probe_ok);
    store_hw_syscall_return(slot, ret);
    c.syscalls = c.syscalls.wrapping_add(1);
    c.sysrets = c.sysrets.wrapping_add(1);
}

} // verus!
