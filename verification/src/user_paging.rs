//! Hardware user page tables: the page-table flags of a mapping, the checks around
//! building a table, and the CR3 bookkeeping counters. The page-table memory and CR3
//! themselves are handled by the caller.

use vstd::prelude::*;
use crate::frame_ownership::OwnedFrameToken;
use crate::load_plan::LoadPermissions;
use crate::user_memory::{translation, InactiveUserPageTable, UserPageTableId};
use crate::user_context::{DEFAULT_USER_STACK_SIZE, DEFAULT_USER_STACK_TOP};
use x86_64::structures::paging::PageTableFlags;

verus! {

#[derive(Debug, Clone, Copy, PartialEq, Eq, Structural)]
pub struct HwPageTableHandle {
    pub inactive_id: UserPageTableId,
    pub cr3_phys: u64,
    pub pml4_token: OwnedFrameToken,
    pub mapped_pages: usize,
}

#[derive(Debug, Clone, Copy, PartialEq, Eq, Structural)]
pub enum UserPagingError {
    NotInitialized,
    EmptyTable,
    FrameUnavailable,
    MapFailed,
    VerifyFailed,
    AlreadyActive,
}

/// Bit of `PageTableFlags::PRESENT` in the x86_64 crate (bit 0).
#[verifier::external_body]
fn present_bit() -> (r: u64)
    ensures
        r == 1,
{
    PageTableFlags::PRESENT.bits()
}

/// Bit of `PageTableFlags::WRITABLE` in the x86_64 crate (bit 1).
#[verifier::external_body]
fn writable_bit() -> (r: u64)
    ensures
        r == 2,
{
    PageTableFlags::WRITABLE.bits()
}

/// Bit of `PageTableFlags::USER_ACCESSIBLE` in the x86_64 crate (bit 2).
#[verifier::external_body]
fn user_accessible_bit() -> (r: u64)
    ensures
        r == 4,
{
    PageTableFlags::USER_ACCESSIBLE.bits()
}

/// Bit of `PageTableFlags::NO_EXECUTE` in the x86_64 crate (bit 63).
#[verifier::external_body]
fn no_execute_bit() -> (r: u64)
    ensures
        r == 0x8000_0000_0000_0000,
{
    PageTableFlags::NO_EXECUTE.bits()
}

/// Page-table entry flags of a user mapping with `permissions`: present and user
/// accessible, writable when the region is, no-execute unless it is executable.
pub open spec fn user_flags(permissions: LoadPermissions) -> u64 {
    flag_bits(permissions.write, permissions.execute)
}

pub open spec fn flag_bits(write: bool, execute: bool) -> u64 {
    1u64 | 4u64 | (if write { 2u64 } else { 0u64 }) | (if !execute { 0x8000_0000_0000_0000u64 } else { 0u64 })
}

pub fn flags_for_permissions(permissions: LoadPermissions) -> (r: u64)
    ensures
        r == user_flags(permissions),
{
    let w = permissions.writable();
    let x = permissions.executable();
    let base = present_bit() | user_accessible_bit();
    let f1 = if w {
        base | writable_bit()
    } else {
        base
    };
    let flags = if !x {
        f1 | no_execute_bit()
    } else {
        f1
    };
    assert(flags == flag_bits(w, x)) by (bit_vector)
        requires
            base == 1u64 | 4u64,
            f1 == (if w { base | 2u64 } else { base }),
            flags == (if !x { f1 | 0x8000_0000_0000_0000u64 } else { f1 }),
    ;
    flags
}

/// Flags of the default user stack pages: present, writable, user accessible.
pub fn stack_flags() -> (r: u64)
    ensures
        r == 7,
{
    let r = present_bit() | writable_bit() | user_accessible_bit();
    assert(1u64 | 2u64 | 4u64 == 7u64) by (bit_vector);
    r
}

/// Pages of the default user stack.
pub fn default_stack_pages() -> (r: usize)
    ensures
        r == DEFAULT_USER_STACK_SIZE / 4096,
{
    DEFAULT_USER_STACK_SIZE / 4096
}

/// Lowest address of the default user stack.
pub fn default_stack_bottom() -> (r: u64)
    ensures
        r == DEFAULT_USER_STACK_TOP - DEFAULT_USER_STACK_SIZE,
{
    DEFAULT_USER_STACK_TOP - (DEFAULT_USER_STACK_SIZE as u64)
}

/// Why a hardware table cannot be built for `inactive`, checked before any frame is
/// taken: no physical-memory offset yet, or an empty table.
pub fn check_build_preconditions(phys_mem_offset: u64, inactive: &InactiveUserPageTable) -> (r: Result<(), UserPagingError>)
    ensures
        phys_mem_offset == 0 ==> r == Err::<(), UserPagingError>(UserPagingError::NotInitialized),
        phys_mem_offset != 0 && inactive.mapped_pages == 0 ==> r == Err::<(), UserPagingError>(
            UserPagingError::EmptyTable,
        ),
        phys_mem_offset != 0 && inactive.mapped_pages != 0 ==> r == Ok::<(), UserPagingError>(()),
{
    if phys_mem_offset == 0 {
        return Err(UserPagingError::NotInitialized);
    }
    if inactive.mapped_pages == 0 {
        return Err(UserPagingError::EmptyTable);
    }
    Ok(())
}

/// Checks a built hardware table against its descriptor: `hw[i]` is what the hardware
/// table translates mapping `i`'s address to.
pub fn verify_translations(inactive: &InactiveUserPageTable, hw: &[Option<u64>]) -> (r: Result<(), UserPagingError>)
    requires
        hw@.len() == inactive.mappings@.len(),
    ensures
        r is Ok <==> forall|i: int|
            0 <= i < hw@.len() ==> (#[trigger] hw@[i]) is Some && translation(
                inactive.mappings@,
                inactive.mappings@[i].virtual_address,
            ) == hw@[i],
        r is Err ==> r == Err::<(), UserPagingError>(UserPagingError::VerifyFailed),
{
    let mut i: usize = 0;
    while i < hw.len()
        invariant
            hw@.len() == inactive.mappings@.len(),
            i <= hw@.len(),
            forall|j: int|
                0 <= j < i ==> (#[trigger] hw@[j]) is Some && translation(
                    inactive.mappings@,
                    inactive.mappings@[j].virtual_address,
                ) == hw@[j],
        decreases hw@.len() - i,
    {
        let h = match hw[i] {
            Some(h) => h,
            None => return Err(UserPagingError::VerifyFailed),
        };
        let d = match crate::user_memory::translate(inactive, inactive.mappings[i].virtual_address) {
            Some(d) => d,
            None => return Err(UserPagingError::VerifyFailed),
        };
        if h != d {
            return Err(UserPagingError::VerifyFailed);
        }
        i = i + 1;
    }
    Ok(())
}

/// Page-table and CR3 counters; each wraps on overflow.
#[derive(Debug, Clone, Copy, PartialEq, Eq, Structural)]
pub struct PagingCounters {
    pub hw_built: u64,
    pub hw_verified: u64,
    pub hw_rejected: u64,
    pub cr3_activations: u64,
    pub cr3_restores: u64,
    pub cr3_switches: u64,
    pub cr3_isolation_checks: u64,
    /// CR3 of the table activated for bring-up, 0 when none.
    pub bringup_user_cr3: u64,
}

pub open spec fn wrap_inc(x: u64) -> u64 {
    if x == u64::MAX {
        0
    } else {
        (x + 1) as u64
    }
}

/// (built, verified, rejected, activations, restores, switches, isolation checks).
pub fn status(c: &PagingCounters) -> (r: (u64, u64, u64, u64, u64, u64, u64))
    ensures
        r == (
            c.hw_built,
            c.hw_verified,
            c.hw_rejected,
            c.cr3_activations,
            c.cr3_restores,
            c.cr3_switches,
            c.cr3_isolation_checks,
        ),
{
    (c.hw_built, c.hw_verified, c.hw_rejected, c.cr3_activations, c.cr3_restores, c.cr3_switches, c.cr3_isolation_checks)
}

/// Counts a built and verified hardware table.
pub fn record_hw_built(c: &mut PagingCounters)
    ensures
        *final(c) == (PagingCounters {
            hw_built: wrap_inc(old(c).hw_built),
            hw_verified: wrap_inc(old(c).hw_verified),
            ..*old(c)
        }),
{
    c.hw_built = c.hw_built.wrapping_add(1);
    c.hw_verified = c.hw_verified.wrapping_add(1);
}

/// The CR3 value to activate for bring-up, or `NotInitialized` when none was set.
pub fn activate_bringup_user_cr3(c: &PagingCounters) -> (r: Result<u64, UserPagingError>)
    ensures
        c.bringup_user_cr3 == 0 ==> r == Err::<u64, UserPagingError>(UserPagingError::NotInitialized),
        c.bringup_user_cr3 != 0 ==> r == Ok::<u64, UserPagingError>(c.bringup_user_cr3),
{
    if c.bringup_user_cr3 == 0 {
        return Err(UserPagingError::NotInitialized);
    }
    Ok(c.bringup_user_cr3)
}

/// Counts an activation of user table `cr3` and remembers it for bring-up.
pub fn record_activation(c: &mut PagingCounters, cr3: u64)
    ensures
        *final(c) == (PagingCounters {
            cr3_activations: wrap_inc(old(c).cr3_activations),
            bringup_user_cr3: cr3,
            ..*old(c)
        }),
{
    c.cr3_activations = c.cr3_activations.wrapping_add(1);
    c.bringup_user_cr3 = cr3;
}

/// Counts a return to the kernel's own page table.
pub fn record_restore(c: &mut PagingCounters)
    ensures
        *final(c) == (PagingCounters { cr3_restores: wrap_inc(old(c).cr3_restores), ..*old(c) }),
{
    c.cr3_restores = c.cr3_restores.wrapping_add(1);
}

/// Counts a switch to a process's user page table.
pub fn record_switch(c: &mut PagingCounters)
    ensures
        *final(c) == (PagingCounters { cr3_switches: wrap_inc(old(c).cr3_switches), ..*old(c) }),
{
    c.cr3_switches = c.cr3_switches.wrapping_add(1);
}

/// Counts an isolation check between two user page tables.
pub fn record_isolation_check(c: &mut PagingCounters)
    ensures
        *final(c) == (PagingCounters { cr3_isolation_checks: wrap_inc(old(c).cr3_isolation_checks), ..*old(c) }),
{
    c.cr3_isolation_checks = c.cr3_isolation_checks.wrapping_add(1);
}

/// Result of the isolation check between two user tables: they differ and both
/// translate the image base.
pub fn isolation_verdict(first: u64, second: u64, first_translates: bool, second_translates: bool) -> (r: bool)
    ensures
        r == (first != second && first_translates && second_translates),
{
    first != second && first_translates && second_translates
}

} // verus!
