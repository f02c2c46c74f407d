use kernel::address_space::{AddressSpaceId, MappingState};
use kernel::frame_backing::{BackedPage, FrameBackedImage, FrameBackedRegion};
use kernel::frame_ownership::{FrameOwner, OwnedFrame, OwnedFrameToken};
use kernel::load_plan::{LoadAction, LoadPermissions, LoadPlan, LoadRegion};
use kernel::mapping_stub::{
    get_mapping, list_mappings, map_load_plan, register_mapping, status, MappingActionKind, MappingId,
    MappingRegistry, MappingStubError,
};
use kernel::security::{Credentials, RoleId, UserId};
use kernel::user_context::{
    build_user_context, UserContextError, UserSelectors, DEFAULT_USER_STACK_SIZE, DEFAULT_USER_STACK_TOP,
    USER_RFLAGS,
};
use kernel::user_memory::{build_inactive_page_table, translate, UserMemoryError, UserPageTableId};

fn rx() -> LoadPermissions {
    LoadPermissions { read: true, write: false, execute: true }
}
fn rw() -> LoadPermissions {
    LoadPermissions { read: true, write: true, execute: false }
}
fn ro() -> LoadPermissions {
    LoadPermissions { read: true, write: false, execute: false }
}
fn rwx() -> LoadPermissions {
    LoadPermissions { read: true, write: true, execute: true }
}

fn owner() -> Credentials {
    Credentials { user: UserId(1000), role: RoleId(2) }
}

fn sample_plan() -> LoadPlan {
    LoadPlan {
        image_name: String::from("hello"),
        source_path: String::from("/bin/hello"),
        entry_point: 0x40_0000,
        regions: vec![
            LoadRegion {
                start: 0x40_0000,
                size: 8192,
                page_count: 2,
                permissions: rx(),
                actions: vec![LoadAction::Copy { source_offset: 0, target_address: 0x40_0000, len: 100 }],
            },
            LoadRegion {
                start: 0x40_2000,
                size: 4096,
                page_count: 1,
                permissions: rw(),
                actions: vec![LoadAction::ZeroFill { target_address: 0x40_2000, len: 4096 }],
            },
        ],
        total_pages: 3,
        stack_pages: 4,
    }
}

#[test]
fn map_load_plan_assigns_frames_in_order() {
    let plan = sample_plan();
    let image = map_load_plan(owner(), MappingId::from_raw(1), AddressSpaceId::from_raw(7), &plan).unwrap();
    assert_eq!(image.id, MappingId(1));
    assert_eq!(image.image_name, "hello");
    assert_eq!(image.source_path, "/bin/hello");
    assert_eq!(image.address_space_id, AddressSpaceId(7));
    assert_eq!(image.total_pages, 3);
    assert_eq!(image.executable_pages, 2);
    assert_eq!(image.writable_pages, 1);
    assert_eq!(image.read_only_pages, 0);
    assert_eq!(image.copied_bytes, 100);
    assert_eq!(image.zero_filled_bytes, 4096);
    assert_eq!(image.owner, owner());
    assert_eq!(image.state, MappingState::MappedStub);
    assert_eq!(image.regions.len(), 2);
    let first = &image.regions[0];
    assert_eq!(first.pages.len(), 2);
    assert_eq!(first.pages[0].virtual_address, 0x40_0000);
    assert_eq!(first.pages[0].frame.as_u64(), 10_000);
    assert_eq!(first.pages[1].virtual_address, 0x40_1000);
    assert_eq!(first.pages[1].frame.as_u64(), 10_001);
    assert_eq!(first.actions[0].kind, MappingActionKind::Copy);
    assert_eq!(first.actions[0].len, 100);
    let second = &image.regions[1];
    assert_eq!(second.pages[0].virtual_address, 0x40_2000);
    assert_eq!(second.pages[0].frame.as_u64(), 10_002);
    assert_eq!(second.pages[0].permissions, rw());
    assert_eq!(second.actions[0].kind, MappingActionKind::ZeroFill);
}

#[test]
fn map_load_plan_counts_read_only_pages() {
    let mut plan = sample_plan();
    plan.regions[1].permissions = ro();
    let image = map_load_plan(owner(), MappingId(2), AddressSpaceId(1), &plan).unwrap();
    assert_eq!(image.writable_pages, 0);
    assert_eq!(image.read_only_pages, 1);
    assert_eq!(image.regions[0].pages[0].frame.as_u64(), 20_000);
}

#[test]
fn map_load_plan_rejects_empty_plans() {
    let mut plan = sample_plan();
    plan.regions.clear();
    assert_eq!(map_load_plan(owner(), MappingId(1), AddressSpaceId(1), &plan).unwrap_err(), MappingStubError::EmptyPlan);
    let mut plan = sample_plan();
    plan.total_pages = 0;
    assert_eq!(map_load_plan(owner(), MappingId(1), AddressSpaceId(1), &plan).unwrap_err(), MappingStubError::EmptyPlan);
}

#[test]
fn map_load_plan_enforces_page_budget() {
    let mut plan = sample_plan();
    plan.total_pages = 250;
    plan.stack_pages = 7;
    assert_eq!(
        map_load_plan(owner(), MappingId(1), AddressSpaceId(1), &plan).unwrap_err(),
        MappingStubError::PageBudgetExceeded
    );
    plan.stack_pages = 6;
    assert!(map_load_plan(owner(), MappingId(1), AddressSpaceId(1), &plan).is_ok());
}

#[test]
fn map_load_plan_rejects_writable_code() {
    let mut plan = sample_plan();
    plan.regions[0].permissions = rwx();
    assert_eq!(
        map_load_plan(owner(), MappingId(1), AddressSpaceId(1), &plan).unwrap_err(),
        MappingStubError::UnsafePermissions
    );
}

#[test]
fn map_load_plan_rejects_actions_outside_region() {
    let mut plan = sample_plan();
    plan.regions[1].actions = vec![LoadAction::ZeroFill { target_address: 0x40_2000, len: 4097 }];
    assert_eq!(
        map_load_plan(owner(), MappingId(1), AddressSpaceId(1), &plan).unwrap_err(),
        MappingStubError::CopyOutOfBounds
    );
    let mut plan = sample_plan();
    plan.regions[0].actions = vec![LoadAction::Copy { source_offset: 0, target_address: 0x3f_f000, len: 1 }];
    assert_eq!(
        map_load_plan(owner(), MappingId(1), AddressSpaceId(1), &plan).unwrap_err(),
        MappingStubError::CopyOutOfBounds
    );
}

#[test]
fn registry_records_successful_mappings() {
    let mut registry = MappingRegistry::new();
    let plan = sample_plan();
    let first = register_mapping(&mut registry, owner(), AddressSpaceId(3), &plan).unwrap();
    assert_eq!(first.id, MappingId(1));
    let mut bad = sample_plan();
    bad.total_pages = 0;
    assert_eq!(
        register_mapping(&mut registry, owner(), AddressSpaceId(3), &bad).unwrap_err(),
        MappingStubError::EmptyPlan
    );
    let third = register_mapping(&mut registry, owner(), AddressSpaceId(4), &plan).unwrap();
    assert_eq!(third.id, MappingId(3));
    assert_eq!(third.regions[0].pages[0].frame.as_u64(), 30_000);

    let listed = list_mappings(&registry);
    assert_eq!(listed.len(), 2);
    assert_eq!(listed[0].id, MappingId(1));
    assert_eq!(listed[1].id, MappingId(3));

    assert!(get_mapping(&registry, MappingId(2)).is_none());
    let found = get_mapping(&registry, MappingId(3)).unwrap();
    assert_eq!(found.address_space_id, AddressSpaceId(4));

    let s = status(&registry);
    assert_eq!(s.mapped_count, 2);
    assert_eq!(s.total_pages, 6);
    assert_eq!(s.copied_bytes, 200);
    assert_eq!(s.zero_filled_bytes, 8192);
}

fn backed_page(va: u64, token: u64, pa: u64, permissions: LoadPermissions) -> BackedPage {
    BackedPage {
        virtual_address: va,
        frame: OwnedFrame { token: OwnedFrameToken::from_raw(token), start_address: pa, owner: FrameOwner::Image },
        permissions,
    }
}

fn sample_backing() -> FrameBackedImage {
    FrameBackedImage {
        address_space_id: AddressSpaceId(9),
        regions: vec![
            FrameBackedRegion {
                pages: vec![backed_page(0x40_0000, 1, 0x20_0000, rx()), backed_page(0x40_1000, 2, 0x30_0000, rx())],
            },
            FrameBackedRegion { pages: vec![backed_page(0x40_2000, 3, 0x40_0000, rw())] },
        ],
        total_pages: 3,
    }
}

#[test]
fn inactive_page_table_maps_every_backed_page() {
    let table = build_inactive_page_table(UserPageTableId::from_raw(5), &sample_backing()).unwrap();
    assert_eq!(table.id.as_u64(), 5);
    assert_eq!(table.address_space_id, AddressSpaceId(9));
    assert_eq!(table.mapped_pages, 3);
    assert_eq!(table.executable_pages, 2);
    assert_eq!(table.writable_pages, 1);
    assert_eq!(table.read_only_pages, 0);
    assert!(table.kernel_shared);
    assert!(!table.cr3_switch_ready);
    assert_eq!(table.mappings[2].physical_address, 0x40_0000);
    assert_eq!(table.mappings[2].frame.as_u64(), 3);
}

#[test]
fn inactive_page_table_translates_offsets() {
    let table = build_inactive_page_table(UserPageTableId(1), &sample_backing()).unwrap();
    assert_eq!(translate(&table, 0x40_0000), Some(0x20_0000));
    assert_eq!(translate(&table, 0x40_1234), Some(0x30_0234));
    assert_eq!(translate(&table, 0x40_2fff), Some(0x40_0fff));
    assert_eq!(translate(&table, 0x40_3000), None);
}

#[test]
fn inactive_page_table_rejects_bad_backings() {
    let mut empty = sample_backing();
    empty.total_pages = 0;
    assert_eq!(build_inactive_page_table(UserPageTableId(1), &empty).unwrap_err(), UserMemoryError::EmptyBacking);

    let mut dup = sample_backing();
    dup.regions[1].pages[0].virtual_address = 0x40_0000;
    assert_eq!(
        build_inactive_page_table(UserPageTableId(1), &dup).unwrap_err(),
        UserMemoryError::DuplicateVirtualPage
    );

    let mut unaligned = sample_backing();
    unaligned.regions[0].pages[1].virtual_address = 0x40_1001;
    assert_eq!(
        build_inactive_page_table(UserPageTableId(1), &unaligned).unwrap_err(),
        UserMemoryError::UnalignedVirtualAddress
    );
}

#[test]
fn user_context_points_at_entry_and_stack() {
    let table = build_inactive_page_table(UserPageTableId(4), &sample_backing()).unwrap();
    let selectors = UserSelectors { code: 0x1b, data: 0x23 };
    let ctx = build_user_context(&table, 0x40_0010, selectors).unwrap();
    assert_eq!(ctx.page_table_id, UserPageTableId(4));
    assert_eq!(ctx.entry.rip, 0x40_0010);
    assert_eq!(ctx.entry.rsp, DEFAULT_USER_STACK_TOP);
    assert_eq!(ctx.entry.rflags, USER_RFLAGS);
    assert_eq!(ctx.entry.code_selector, 0x1b);
    assert_eq!(ctx.entry.stack_selector, 0x23);
    assert_eq!(ctx.stack.size, DEFAULT_USER_STACK_SIZE);
    assert!(ctx.selectors_ready);
    assert!(ctx.entry_ready);
    assert!(!ctx.ring3_entered);

    let unready = build_user_context(&table, 0x40_0010, UserSelectors { code: 0, data: 0x23 }).unwrap();
    assert!(!unready.selectors_ready);
}

#[test]
fn user_context_rejects_unmapped_entry() {
    let table = build_inactive_page_table(UserPageTableId(4), &sample_backing()).unwrap();
    let selectors = UserSelectors { code: 0x1b, data: 0x23 };
    assert_eq!(build_user_context(&table, 0x50_0000, selectors), Err(UserContextError::InvalidEntry));
    let mut empty = table.clone();
    empty.mapped_pages = 0;
    assert_eq!(build_user_context(&empty, 0x40_0000, selectors), Err(UserContextError::EmptyPageTable));
}
