//! Checks on user pointers before bytes are copied across the user/kernel boundary.

use vstd::prelude::*;

verus! {

pub const MAX_USER_COPY_LEN: usize = 64;
/// Lowest kernel-half address.
pub const KERNEL_SPACE_START: u64 = 0xffff_8000_0000_0000;

#[derive(Debug, Clone, Copy, PartialEq, Eq, Structural)]
pub enum UserCopyError {
    NullPointer,
    KernelPointer,
    TooLarge,
    NotMapped,
    NotWritable,
}

/// Completed and rejected copies; each wraps on overflow.
#[derive(Debug, Clone, Copy, PartialEq, Eq, Structural)]
pub struct UserCopyCounters {
    pub success: u64,
    pub rejected: u64,
}

pub open spec fn wrap_inc(x: u64) -> u64 {
    if x == u64::MAX {
        0
    } else {
        (x + 1) as u64
    }
}

/// (completed, rejected) copies.
pub fn status(c: &UserCopyCounters) -> (r: (u64, u64))
    ensures
        r == (c.success, c.rejected),
{
    (c.success, c.rejected)
}

/// Why a copy of `len` bytes at user address `user_addr` is refused before any byte
/// moves, if it is.
pub open spec fn copy_check(user_addr: u64, len: usize) -> Option<UserCopyError> {
    if user_addr == 0 {
        Some(UserCopyError::NullPointer)
    } else if len > MAX_USER_COPY_LEN {
        Some(UserCopyError::TooLarge)
    } else if user_addr >= KERNEL_SPACE_START {
        Some(UserCopyError::KernelPointer)
    } else {
        None
    }
}

/// Checks a copy of `len` bytes at `user_addr`; a refusal is counted.
pub fn check_user_copy(c: &mut UserCopyCounters, user_addr: u64, len: usize) -> (r: Result<(), UserCopyError>)
    ensures
        match copy_check(user_addr, len) {
            Some(e) => r == Err::<(), UserCopyError>(e) && *final(c) == (UserCopyCounters {
                rejected: wrap_inc(old(c).rejected),
                ..*old(c)
            }),
            None => r == Ok::<(), UserCopyError>(()) && *final(c) == *old(c),
        },
{
    let e = if user_addr == 0 {
        UserCopyError::NullPointer
    } else if len > MAX_USER_COPY_LEN {
        UserCopyError::TooLarge
    } else if user_addr >= KERNEL_SPACE_START {
        UserCopyError::KernelPointer
    } else {
        return Ok(());
    };
    c.rejected = c.rejected.wrapping_add(1);
    Err(e)
}

/// Counts a copy stopped at a byte whose page is not mapped.
pub fn record_copy_not_mapped(c: &mut UserCopyCounters) -> (r: UserCopyError)
    ensures
        r == UserCopyError::NotMapped,
        *final(c) == (UserCopyCounters { rejected: wrap_inc(old(c).rejected), ..*old(c) }),
{
    c.rejected = c.rejected.wrapping_add(1);
    UserCopyError::NotMapped
}

/// Where a copy stops, given the translation of each byte's user address in
/// order: the index of the first byte whose page is not mapped, or `None` when
/// every byte translates and the whole copy goes through.
pub fn first_unmapped(translations: &[Option<u64>]) -> (r: Option<usize>)
    ensures
        match r {
            Some(i) => i < translations@.len() && translations@[i as int] is None && forall|j: int|
                0 <= j < i ==> (#[trigger] translations@[j]) is Some,
            None => forall|j: int| 0 <= j < translations@.len() ==> (#[trigger] translations@[j]) is Some,
        },
{
    let mut i: usize = 0;
    while i < translations.len()
        invariant
            i <= translations@.len(),
            forall|j: int| 0 <= j < i ==> (#[trigger] translations@[j]) is Some,
        decreases translations@.len() - i,
    {
        if translations[i].is_none() {
            return Some(i);
        }
        i = i + 1;
    }
    None
}

/// Counts a completed copy of `len` bytes and returns `len`.
pub fn record_copy_success(c: &mut UserCopyCounters, len: usize) -> (r: usize)
    ensures
        r == len,
        *final(c) == (UserCopyCounters { success: wrap_inc(old(c).success), ..*old(c) }),
{
    c.success = c.success.wrapping_add(1);
    len
}

/// The bytes the copy probe writes to user memory and reads back.
pub open spec fn probe_sample() -> Seq<u8> {
    seq![97u8, 114, 101, 115, 45, 99, 111, 112, 121, 105, 110, 45, 111, 107]
}

/// The copy probe's bytes (`ares-copyin-ok`).
pub fn probe_bytes() -> (r: [u8; 14])
    ensures
        r@ == probe_sample(),
{
    let r: [u8; 14] = [97, 114, 101, 115, 45, 99, 111, 112, 121, 105, 110, 45, 111, 107];
    assert(r@ =~= probe_sample());
    r
}

/// The copy probe succeeds when both copies succeed and the bytes read back equal the
/// sample.
pub fn probe_verdict(copied_out: bool, copied_back: bool, read_back: &[u8; 14]) -> (r: bool)
    ensures
        r == (copied_out && copied_back && read_back@ == probe_sample()),
{
    if !copied_out || !copied_back {
        return false;
    }
    let sample = probe_bytes();
    let mut i: usize = 0;
    while i < 14
        invariant
            i <= 14,
            sample@ == probe_sample(),
            forall|j: int| 0 <= j < i ==> read_back@[j] == sample@[j],
        decreases 14 - i,
    {
        if read_back[i] != sample[i] {
            return false;
        }
        i = i + 1;
    }
    assert(read_back@ =~= probe_sample());
    true
}

} // verus!
