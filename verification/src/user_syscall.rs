//! The user syscall ABI: register frames in, return frames out.

use vstd::prelude::*;
use crate::kernel_state::KernelState;
use crate::syscall::{format_result, formatted_state, invoke_raw, served, syscall_id_of, query_result, SyscallError, SyscallId};

verus! {

#[derive(Debug, Clone, Copy, PartialEq, Eq, Structural)]
pub struct UserRegisterFrame {
    pub syscall_id: u64,
    pub arg0: u64,
    pub return_value: u64,
    pub error: Option<SyscallError>,
}

#[derive(Debug, Clone, Copy, PartialEq, Eq, Structural)]
pub struct UserSyscallReturn {
    pub syscall_id: u64,
    pub arg0: u64,
    pub return_value: u64,
    pub error: Option<SyscallError>,
    pub returned_to_user: bool,
}

#[derive(Debug, Clone, Copy, PartialEq, Eq, Structural)]
pub enum UserSyscallAbiError {
    UserPointerRejected,
}

/// The last hardware syscall's id, return value and error code; an id of 0 means
/// none was recorded.
#[derive(Debug, Clone, Copy, PartialEq, Eq, Structural)]
pub struct HwReturnSlot {
    pub last_id: u64,
    pub last_return: u64,
    pub last_error: u64,
}

/// The stored code of an error: its position among the variants; no error is 0, and
/// so is `InvalidSyscall`.
pub open spec fn error_code(e: Option<SyscallError>) -> u64 {
    match e {
        None => 0,
        Some(SyscallError::InvalidSyscall) => 0,
        Some(SyscallError::InvalidArgument) => 1,
        Some(SyscallError::Storage) => 2,
    }
}

pub fn store_hw_syscall_return(slot: &mut HwReturnSlot, ret: UserSyscallReturn)
    ensures
        *final(slot) == (HwReturnSlot {
            last_id: ret.syscall_id,
            last_return: ret.return_value,
            last_error: error_code(ret.error),
        }),
{
    slot.last_id = ret.syscall_id;
    slot.last_return = ret.return_value;
    slot.last_error = match ret.error {
        None => 0,
        Some(SyscallError::InvalidSyscall) => 0,
        Some(SyscallError::InvalidArgument) => 1,
        Some(SyscallError::Storage) => 2,
    };
}

/// The recorded return of the last hardware syscall; a non-zero error code reads back
/// as `InvalidArgument`.
pub fn last_hw_syscall_return(slot: &HwReturnSlot) -> (r: Option<UserSyscallReturn>)
    ensures
        slot.last_id == 0 ==> r is None,
        slot.last_id != 0 ==> r == Some(
            UserSyscallReturn {
                syscall_id: slot.last_id,
                arg0: 0,
                return_value: slot.last_return,
                error: if slot.last_error == 0 {
                    None
                } else {
                    Some(SyscallError::InvalidArgument)
                },
                returned_to_user: true,
            },
        ),
{
    if slot.last_id == 0 {
        return None;
    }
    Some(UserSyscallReturn {
        syscall_id: slot.last_id,
        arg0: 0,
        return_value: slot.last_return,
        error: if slot.last_error == 0 {
            None
        } else {
            Some(SyscallError::InvalidArgument)
        },
        returned_to_user: true,
    })
}

/// A dispatched user syscall: finished, or the user-copy probe, which the caller runs
/// on the live page tables and completes with [`finish_copy_probe`].
#[derive(Debug, Clone, Copy, PartialEq, Eq, Structural)]
pub enum UserDispatch {
    Done(UserSyscallReturn),
    CopyProbe(UserRegisterFrame),
}

/// The return frame of a syscall whose result was `res`.
pub open spec fn return_of(frame: UserRegisterFrame, res: Result<u64, SyscallError>) -> UserSyscallReturn {
    match res {
        Ok(v) => UserSyscallReturn {
            syscall_id: frame.syscall_id,
            arg0: frame.arg0,
            return_value: v,
            error: None,
            returned_to_user: true,
        },
        Err(e) => UserSyscallReturn {
            syscall_id: frame.syscall_id,
            arg0: frame.arg0,
            return_value: 0,
            error: Some(e),
            returned_to_user: true,
        },
    }
}

/// The user-copy probe syscall number.
pub open spec fn copy_probe_id() -> u64 {
    SyscallId::UserCopyProbe.number()
}

/// The return of the syscall in `frame` dispatched on state `k0`.
pub open spec fn dispatch_return(k0: KernelState, frame: UserRegisterFrame) -> UserSyscallReturn {
    match syscall_id_of(frame.syscall_id) {
        Some(s) => if served(s) && frame.arg0 != 0 {
            return_of(frame, Err(SyscallError::InvalidArgument))
        } else if served(s) && !(s is StorageFormat) {
            return_of(frame, query_result(k0, s))
        } else if served(s) {
            return_of(frame, format_result(k0))
        } else {
            return_of(frame, Err(SyscallError::InvalidSyscall))
        },
        None => return_of(frame, Err(SyscallError::InvalidSyscall)),
    }
}

/// The state that dispatching `frame` on `k0` leaves: only a served `StorageFormat`
/// with argument 0 changes it, as [`formatted_state`] says.
pub open spec fn dispatch_state(k0: KernelState, k1: KernelState, frame: UserRegisterFrame) -> bool {
    match syscall_id_of(frame.syscall_id) {
        Some(s) => if served(s) && frame.arg0 == 0 && s is StorageFormat {
            formatted_state(k0, k1)
        } else {
            k1 == k0
        },
        None => k1 == k0,
    }
}

/// The return of a dispatched syscall and the state it leaves.
pub open spec fn dispatched(k0: KernelState, k1: KernelState, frame: UserRegisterFrame, ret: UserSyscallReturn) -> bool {
    ret == dispatch_return(k0, frame) && dispatch_state(k0, k1, frame)
}

/// Dispatches a syscall made from user mode. A frame with syscall 0 and argument 0 is
/// rejected as a bad user pointer.
pub fn dispatch_from_user(k: &mut KernelState, frame: UserRegisterFrame) -> (r: Result<UserDispatch, UserSyscallAbiError>)
    requires
        old(k).wf(),
    ensures
        final(k).wf(),
        frame.syscall_id == 0 && frame.arg0 == 0 ==> r == Err::<UserDispatch, UserSyscallAbiError>(
            UserSyscallAbiError::UserPointerRejected,
        ) && *final(k) == *old(k),
        !(frame.syscall_id == 0 && frame.arg0 == 0) && frame.syscall_id == copy_probe_id() ==> r == Ok::<
            UserDispatch,
            UserSyscallAbiError,
        >(UserDispatch::CopyProbe(frame)) && *final(k) == *old(k),
        !(frame.syscall_id == 0 && frame.arg0 == 0) && frame.syscall_id != copy_probe_id() ==> (r matches Ok(
            UserDispatch::Done(ret),
        ) && dispatched(*old(k), *final(k), frame, ret)),
{
    if frame.syscall_id == 0 && frame.arg0 == 0 {
        return Err(UserSyscallAbiError::UserPointerRejected);
    }
    if frame.syscall_id == SyscallId::UserCopyProbe.as_u64() {
        return Ok(UserDispatch::CopyProbe(frame));
    }
    let ret = match invoke_raw(k, frame.syscall_id, frame.arg0) {
        Ok(value) => UserSyscallReturn {
            syscall_id: frame.syscall_id,
            arg0: frame.arg0,
            return_value: value,
            error: None,
            returned_to_user: true,
        },
        Err(err) => UserSyscallReturn {
            syscall_id: frame.syscall_id,
            arg0: frame.arg0,
            return_value: 0,
            error: Some(err),
            returned_to_user: true,
        },
    };
    Ok(UserDispatch::Done(ret))
}

/// Completes the user-copy probe: the return value is 1 when the probe round trip
/// succeeded, else 0.
pub fn finish_copy_probe(frame: UserRegisterFrame, probe_ok: bool) -> (r: UserSyscallReturn)
    ensures
        r == (UserSyscallReturn {
            syscall_id: frame.syscall_id,
            arg0: frame.arg0,
            return_value: if probe_ok { 1 } else { 0 },
            error: None,
            returned_to_user: true,
        }),
{
    UserSyscallReturn {
        syscall_id: frame.syscall_id,
        arg0: frame.arg0,
        return_value: if probe_ok {
            1
        } else {
            0
        },
        error: None,
        returned_to_user: true,
    }
}

/// The frame of a tick-count syscall.
pub fn tick_probe_frame() -> (r: UserRegisterFrame)
    ensures
        r == (UserRegisterFrame {
            syscall_id: SyscallId::GetTickCount.number(),
            arg0: 0,
            return_value: 0,
            error: None,
        }),
{
    UserRegisterFrame { syscall_id: SyscallId::GetTickCount.as_u64(), arg0: 0, return_value: 0, error: None }
}

} // verus!
