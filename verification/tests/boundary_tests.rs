use kernel::address_space::AddressSpaceId;
use kernel::elf_reloc::{
    apply_dynamic_needed, apply_static_relocs, dynamic_status, parse_dt_needed, record_dynamic_link_smoke,
    relocs_for_image, status as reloc_status, RelocCounters, RelocWrite, StaticReloc, R_X86_64_64, R_X86_64_NONE,
    R_X86_64_RELATIVE,
};
use kernel::frame_backing::{BackedPage, FrameBackedImage, FrameBackedRegion};
use kernel::frame_ownership::{FrameOwner, OwnedFrame, OwnedFrameToken};
use kernel::load_plan::LoadPermissions;
use kernel::task::context::{stack_top, CpuContext, INITIAL_RFLAGS};
use kernel::task::timer::{duration_to_ticks, sleep, sleep_ticks, sleeping_too_long, uptime_secs};
use kernel::user_copy::{
    check_user_copy, first_unmapped, probe_bytes, probe_verdict, record_copy_not_mapped, record_copy_success,
    status as copy_status, UserCopyCounters, UserCopyError,
};
use kernel::user_memory::{build_inactive_page_table, UserPageTableId};
use kernel::user_paging::{
    activate_bringup_user_cr3, check_build_preconditions, default_stack_bottom, default_stack_pages,
    flags_for_permissions, isolation_verdict, record_activation, record_hw_built, record_isolation_check, record_restore,
    record_switch, stack_flags,
    status as paging_status, verify_translations, PagingCounters, UserPagingError,
};

fn perms(write: bool, execute: bool) -> LoadPermissions {
    LoadPermissions { read: true, write, execute }
}

fn backing() -> FrameBackedImage {
    FrameBackedImage {
        address_space_id: AddressSpaceId(2),
        regions: vec![FrameBackedRegion {
            pages: vec![
                BackedPage {
                    virtual_address: 0x40_0000,
                    frame: OwnedFrame {
                        token: OwnedFrameToken::from_raw(1),
                        start_address: 0x20_0000,
                        owner: FrameOwner::Image,
                    },
                    permissions: perms(false, true),
                },
                BackedPage {
                    virtual_address: 0x40_1000,
                    frame: OwnedFrame {
                        token: OwnedFrameToken::from_raw(2),
                        start_address: 0x25_0000,
                        owner: FrameOwner::Image,
                    },
                    permissions: perms(true, false),
                },
            ],
        }],
        total_pages: 2,
    }
}

// ───────────────────────── user copy ─────────────────────────

#[test]
fn user_copy_rejects_bad_pointers() {
    let mut c = UserCopyCounters { success: 0, rejected: 0 };
    assert_eq!(check_user_copy(&mut c, 0, 8), Err(UserCopyError::NullPointer));
    assert_eq!(check_user_copy(&mut c, 0x1000, 65), Err(UserCopyError::TooLarge));
    assert_eq!(check_user_copy(&mut c, 0xffff_8000_0000_0000, 8), Err(UserCopyError::KernelPointer));
    assert_eq!(copy_status(&c), (0, 3));
    assert_eq!(check_user_copy(&mut c, 0x1000, 64), Ok(()));
    assert_eq!(copy_status(&c), (0, 3));
}

#[test]
fn user_copy_counts_outcomes() {
    let mut c = UserCopyCounters { success: u64::MAX, rejected: 5 };
    assert_eq!(record_copy_success(&mut c, 14), 14);
    assert_eq!(record_copy_not_mapped(&mut c), UserCopyError::NotMapped);
    assert_eq!(copy_status(&c), (0, 6));
}

#[test]
fn copy_probe_compares_every_byte() {
    let sample = probe_bytes();
    assert_eq!(&sample, b"ares-copyin-ok");
    assert!(probe_verdict(true, true, &sample));
    assert!(!probe_verdict(false, true, &sample));
    assert!(!probe_verdict(true, false, &sample));
    let mut changed = sample;
    changed[13] = b'K';
    assert!(!probe_verdict(true, true, &changed));
}

// ───────────────────────── hardware paging ─────────────────────────

#[test]
fn page_flags_follow_permissions() {
    assert_eq!(flags_for_permissions(perms(false, true)), 0b101);
    assert_eq!(flags_for_permissions(perms(true, false)), 0x8000_0000_0000_0007);
    assert_eq!(flags_for_permissions(perms(false, false)), 0x8000_0000_0000_0005);
    assert_eq!(stack_flags(), 7);
    assert_eq!(default_stack_pages(), 4);
    assert_eq!(default_stack_bottom(), 0x0000_7fff_ffff_b000);
}

#[test]
fn hardware_table_preconditions() {
    let table = build_inactive_page_table(UserPageTableId(1), &backing()).unwrap();
    assert_eq!(check_build_preconditions(0, &table), Err(UserPagingError::NotInitialized));
    assert_eq!(check_build_preconditions(0xffff_8000_0000_0000, &table), Ok(()));
    let mut empty = table.clone();
    empty.mapped_pages = 0;
    assert_eq!(check_build_preconditions(0x1000, &empty), Err(UserPagingError::EmptyTable));
}

#[test]
fn hardware_translations_must_match_descriptor() {
    let table = build_inactive_page_table(UserPageTableId(1), &backing()).unwrap();
    assert_eq!(verify_translations(&table, &[Some(0x20_0000), Some(0x25_0000)]), Ok(()));
    assert_eq!(verify_translations(&table, &[Some(0x20_0000), None]), Err(UserPagingError::VerifyFailed));
    assert_eq!(verify_translations(&table, &[Some(0x20_0000), Some(0x26_0000)]), Err(UserPagingError::VerifyFailed));
}

#[test]
fn cr3_bookkeeping() {
    let mut c = PagingCounters {
        hw_built: 0,
        hw_verified: 0,
        hw_rejected: 0,
        cr3_activations: 0,
        cr3_restores: 0,
        cr3_switches: 0,
        cr3_isolation_checks: 0,
        bringup_user_cr3: 0,
    };
    assert_eq!(activate_bringup_user_cr3(&c), Err(UserPagingError::NotInitialized));
    record_hw_built(&mut c);
    record_activation(&mut c, 0x5000);
    assert_eq!(activate_bringup_user_cr3(&c), Ok(0x5000));
    assert_eq!(paging_status(&c), (1, 1, 0, 1, 0, 0, 0));
    record_restore(&mut c);
    record_switch(&mut c);
    record_switch(&mut c);
    record_isolation_check(&mut c);
    assert_eq!(paging_status(&c), (1, 1, 0, 1, 1, 2, 1));
    assert_eq!(c.bringup_user_cr3, 0x5000);
    assert!(isolation_verdict(0x5000, 0x6000, true, true));
    assert!(!isolation_verdict(0x5000, 0x5000, true, true));
    assert!(!isolation_verdict(0x5000, 0x6000, true, false));
}

// ───────────────────────── relocations ─────────────────────────

fn marked_image() -> Vec<u8> {
    let mut bytes = vec![0u8; 128];
    bytes[120..124].copy_from_slice(b"ARES");
    bytes
}

#[test]
fn marker_decides_needed_library() {
    assert_eq!(parse_dt_needed(&marked_image()), Some("libc_stub"));
    assert_eq!(parse_dt_needed(&[0u8; 128]), None);
    assert_eq!(parse_dt_needed(b"ARES"), None);
    let mut c = RelocCounters { applied: 0, rejected: 0, dt_needed: 0, dt_linked: 0 };
    assert!(record_dynamic_link_smoke(&mut c, &marked_image()));
    assert!(!record_dynamic_link_smoke(&mut c, &[0u8; 16]));
    assert_eq!(dynamic_status(&c), (1, 1, true));
}

#[test]
fn marked_images_get_one_relative_relocation() {
    let relocs = relocs_for_image(&marked_image(), 0x40_0000);
    assert_eq!(relocs, vec![StaticReloc { offset: 0x40_0078, kind: R_X86_64_RELATIVE, addend: 0x40_0000 }]);
    assert!(relocs_for_image(&[0u8; 8], 0x40_0000).is_empty());
}

#[test]
fn static_relocations_write_into_backing_frames() {
    let mut c = RelocCounters { applied: 0, rejected: 0, dt_needed: 0, dt_linked: 0 };
    let relocs = [
        StaticReloc { offset: 0x40_0078, kind: R_X86_64_RELATIVE, addend: 0x10 },
        StaticReloc { offset: 0x40_0000, kind: R_X86_64_NONE, addend: 1 },
        StaticReloc { offset: 0x40_1008, kind: R_X86_64_64, addend: 0xdead },
    ];
    let outcome = apply_static_relocs(&mut c, &backing(), &[], &relocs);
    assert_eq!(outcome.result, Ok(2));
    assert_eq!(
        outcome.writes,
        vec![
            RelocWrite { frame_address: 0x20_0000, offset: 0x78, value: 0x40_0010 },
            RelocWrite { frame_address: 0x25_0000, offset: 8, value: 0xdead },
        ]
    );
    assert_eq!(reloc_status(&c), (2, 0));
}

#[test]
fn static_relocations_stop_at_first_failure() {
    let mut c = RelocCounters { applied: 0, rejected: 0, dt_needed: 0, dt_linked: 0 };
    let relocs = [
        StaticReloc { offset: 0x40_0010, kind: R_X86_64_64, addend: 7 },
        StaticReloc { offset: 0x50_0000, kind: R_X86_64_64, addend: 8 },
        StaticReloc { offset: 0x40_0020, kind: R_X86_64_64, addend: 9 },
    ];
    let outcome = apply_static_relocs(&mut c, &backing(), &[], &relocs);
    assert_eq!(outcome.result, Err(()));
    assert_eq!(outcome.writes.len(), 1);
    assert_eq!(reloc_status(&c), (0, 1));

    let unknown = [StaticReloc { offset: 0x40_0010, kind: 42, addend: 0 }];
    let outcome = apply_static_relocs(&mut c, &backing(), &[], &unknown);
    assert_eq!(outcome.result, Err(()));
    assert!(outcome.writes.is_empty());
    assert_eq!(reloc_status(&c), (0, 2));
}

#[test]
fn dynamic_relocations_count_the_linked_library() {
    let mut c = RelocCounters { applied: 0, rejected: 0, dt_needed: 0, dt_linked: 0 };
    let image = marked_image();
    let relocs = relocs_for_image(&image, 0x40_0000);
    let outcome = apply_dynamic_needed(&mut c, &backing(), &image, &relocs);
    assert_eq!(outcome.result, Ok(1));
    assert_eq!(outcome.writes[0].value, 0x80_0000);
    assert_eq!(dynamic_status(&c), (1, 1, true));
    assert_eq!(reloc_status(&c), (1, 0));

    let bad = [StaticReloc { offset: 0x90_0000, kind: R_X86_64_64, addend: 0 }];
    let outcome = apply_dynamic_needed(&mut c, &backing(), &image, &bad);
    assert_eq!(outcome.result, Err(()));
    assert_eq!(dynamic_status(&c), (2, 1, true));
}

// ───────────────────────── timer and contexts ─────────────────────────

#[test]
fn durations_round_up_to_ticks() {
    assert_eq!(duration_to_ticks(0), 0);
    assert_eq!(duration_to_ticks(1), 1);
    assert_eq!(duration_to_ticks(10), 1);
    assert_eq!(duration_to_ticks(11), 2);
    assert_eq!(duration_to_ticks(5000), 500);
    assert_eq!(duration_to_ticks(u128::MAX - 10), u64::MAX);
}

#[test]
fn sleeps_end_at_wake_tick() {
    let s = sleep(100, 25);
    assert_eq!(s.wake_tick, 103);
    assert!(!s.is_ready(102));
    assert!(s.is_ready(103));
    assert_eq!(sleep_ticks(u64::MAX - 1, 5).wake_tick, u64::MAX);
    assert!(sleeping_too_long(true, 3000));
    assert!(!sleeping_too_long(true, 2999));
    assert!(!sleeping_too_long(false, 5000));
    assert_eq!(uptime_secs(550), 5);
}

#[test]
fn initial_context_enters_at_entry() {
    let ctx = CpuContext::initial(0x9000, 0x1234);
    assert_eq!(ctx.rsp, 0x9000);
    assert_eq!(ctx.rip, 0x1234);
    assert_eq!(ctx.rflags, INITIAL_RFLAGS);
    assert_eq!(ctx.rbx, 0);
    assert_eq!(CpuContext::empty().rflags, 0);
    assert_eq!(stack_top(0x1000, 0x4000), 0x5000);
    assert_eq!(stack_top(u64::MAX - 1, 16), u64::MAX);
}

#[test]
fn copy_stops_at_first_unmapped_byte() {
    assert_eq!(first_unmapped(&[Some(0x1000), Some(0x1001), None, Some(0x3000)]), Some(2));
    assert_eq!(first_unmapped(&[Some(0x1000), Some(0x1001)]), None);
    assert_eq!(first_unmapped(&[None]), Some(0));
    assert_eq!(first_unmapped(&[]), None);
}
