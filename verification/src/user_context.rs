//! User entry context descriptors: where a user program starts and which stack it
//! runs on.

use vstd::prelude::*;
use crate::user_memory::{translate, translation, InactiveUserPageTable, UserPageTableId};

verus! {

pub const DEFAULT_USER_STACK_TOP: u64 = 0x0000_7fff_ffff_f000;
pub const DEFAULT_USER_STACK_SIZE: usize = 16384;
/// Interrupts enabled, reserved bit 1 set.
pub const USER_RFLAGS: u64 = 0x202;

#[derive(Debug, Clone, Copy, PartialEq, Eq, Structural)]
pub struct UserStackDescriptor {
    pub top: u64,
    pub size: usize,
}

#[derive(Debug, Clone, Copy, PartialEq, Eq, Structural)]
pub struct UserEntryFrame {
    pub rip: u64,
    pub rsp: u64,
    pub rflags: u64,
    pub code_selector: u16,
    pub stack_selector: u16,
}

#[derive(Debug, Clone, Copy, PartialEq, Eq, Structural)]
pub struct UserContextDescriptor {
    pub page_table_id: UserPageTableId,
    pub entry: UserEntryFrame,
    pub stack: UserStackDescriptor,
    pub selectors_ready: bool,
    pub entry_ready: bool,
    pub ring3_entered: bool,
}

#[derive(Debug, Clone, Copy, PartialEq, Eq, Structural)]
pub enum UserContextError {
    EmptyPageTable,
    InvalidEntry,
    InvalidStack,
}

/// The ring-3 code and stack segment selectors.
#[derive(Debug, Clone, Copy, PartialEq, Eq, Structural)]
pub struct UserSelectors {
    pub code: u16,
    pub data: u16,
}

/// What building the user context gives.
pub open spec fn user_context_result(
    page_table: InactiveUserPageTable,
    entry_point: u64,
    selectors: UserSelectors,
) -> Result<UserContextDescriptor, UserContextError> {
    if page_table.mapped_pages == 0 {
        Err(UserContextError::EmptyPageTable)
    } else if translation(page_table.mappings@, entry_point) is None {
        Err(UserContextError::InvalidEntry)
    } else {
        Ok(
            UserContextDescriptor {
                page_table_id: page_table.id,
                entry: UserEntryFrame {
                    rip: entry_point,
                    rsp: DEFAULT_USER_STACK_TOP,
                    rflags: USER_RFLAGS,
                    code_selector: selectors.code,
                    stack_selector: selectors.data,
                },
                stack: UserStackDescriptor { top: DEFAULT_USER_STACK_TOP, size: DEFAULT_USER_STACK_SIZE },
                selectors_ready: selectors.code != 0 && selectors.data != 0,
                entry_ready: true,
                ring3_entered: false,
            },
        )
    }
}

/// Builds the entry context of a user program whose code starts at `entry_point`.
pub fn build_user_context(page_table: &InactiveUserPageTable, entry_point: u64, selectors: UserSelectors) -> (r: Result<
    UserContextDescriptor,
    UserContextError,
>)
    ensures
        r == user_context_result(*page_table, entry_point, selectors),
{
    if page_table.mapped_pages == 0 {
        return Err(UserContextError::EmptyPageTable);
    }
    if translate(page_table, entry_point).is_none() {
        return Err(UserContextError::InvalidEntry);
    }
    if DEFAULT_USER_STACK_TOP % 16 != 0 || DEFAULT_USER_STACK_SIZE < 4096 {
        return Err(UserContextError::InvalidStack);
    }
    Ok(UserContextDescriptor {
        page_table_id: page_table.id,
        entry: UserEntryFrame {
            rip: entry_point,
            rsp: DEFAULT_USER_STACK_TOP,
            rflags: USER_RFLAGS,
            code_selector: selectors.code,
            stack_selector: selectors.data,
        },
        stack: UserStackDescriptor { top: DEFAULT_USER_STACK_TOP, size: DEFAULT_USER_STACK_SIZE },
        selectors_ready: selectors.code != 0 && selectors.data != 0,
        entry_ready: true,
        ring3_entered: false,
    })
}

} // verus!
