use kernel::frame_ownership::{
    allocate_frame, init_from_memory_map, phase14_smoke_check, release_frame, status, FrameOwner, FrameOwnershipError,
    FrameRegistry, MemoryRegion, OwnedFrameToken,
};

fn registry_with(addresses: &[u64]) -> FrameRegistry {
    let mut r = FrameRegistry::new();
    assert_eq!(r.init_from_addresses(addresses), Ok(()));
    r
}

#[test]
fn uninitialized_registry_refuses() {
    let mut r = FrameRegistry::new();
    assert_eq!(allocate_frame(&mut r, FrameOwner::Kernel), Err(FrameOwnershipError::NotInitialized));
    assert_eq!(release_frame(&mut r, OwnedFrameToken::from_raw(1)), Err(FrameOwnershipError::NotInitialized));
    assert!(!status(&r).initialized);
}

#[test]
fn second_init_is_rejected() {
    let mut r = registry_with(&[0x1000]);
    assert_eq!(r.init_from_addresses(&[0x2000]), Err(FrameOwnershipError::AlreadyInitialized));
    assert_eq!(status(&r).tracked_frames, 1);
}

#[test]
fn allocate_hands_out_first_free_frame() {
    let mut r = registry_with(&[0x1000, 0x2000, 0x3000]);
    let a = allocate_frame(&mut r, FrameOwner::Image).unwrap();
    assert_eq!(a.token.as_u64(), 1);
    assert_eq!(a.start_address, 0x1000);
    assert_eq!(a.owner, FrameOwner::Image);
    let b = allocate_frame(&mut r, FrameOwner::PageTable).unwrap();
    assert_eq!(b.token.as_u64(), 2);
    assert_eq!(b.start_address, 0x2000);
    let s = status(&r);
    assert_eq!(s.allocated_frames, 2);
    assert_eq!(s.available_frames, 1);
    assert_eq!(s.allocation_count, 2);
}

#[test]
fn release_then_allocate_reuses_frame() {
    let mut r = registry_with(&[0x1000, 0x2000]);
    let a = allocate_frame(&mut r, FrameOwner::Test).unwrap();
    assert_eq!(release_frame(&mut r, a.token), Ok(()));
    assert_eq!(status(&r).allocated_frames, 0);
    assert_eq!(status(&r).release_count, 1);
    let again = allocate_frame(&mut r, FrameOwner::Test).unwrap();
    assert_eq!(again.start_address, 0x1000);
}

#[test]
fn exhausted_registry_counts_failure() {
    let mut r = registry_with(&[0x1000]);
    assert!(allocate_frame(&mut r, FrameOwner::Kernel).is_ok());
    assert_eq!(allocate_frame(&mut r, FrameOwner::Kernel), Err(FrameOwnershipError::Exhausted));
    assert_eq!(status(&r).failed_allocation_count, 1);
}

#[test]
fn release_errors() {
    let mut r = registry_with(&[0x1000]);
    assert_eq!(release_frame(&mut r, OwnedFrameToken::from_raw(9)), Err(FrameOwnershipError::UnknownFrame));
    assert_eq!(release_frame(&mut r, OwnedFrameToken::from_raw(1)), Err(FrameOwnershipError::AlreadyReleased));
}

#[test]
fn smoke_check_restores_table() {
    let mut r = registry_with(&[0x1000, 0x2000]);
    assert!(phase14_smoke_check(&mut r));
    assert_eq!(status(&r).allocated_frames, 0);
    let mut unaligned = registry_with(&[0x1001]);
    assert!(!phase14_smoke_check(&mut unaligned));
}

#[test]
fn memory_map_frames_skip_boot_frames() {
    let mut r = FrameRegistry::new();
    let regions = [
        MemoryRegion { start_addr: 0x0, end_addr: 0x3000, usable: true },
        MemoryRegion { start_addr: 0x10000, end_addr: 0x20000, usable: false },
        MemoryRegion { start_addr: 0x100000, end_addr: 0x102000, usable: true },
    ];
    assert_eq!(init_from_memory_map(&mut r, &regions, 2), Ok(()));
    let s = status(&r);
    assert_eq!(s.tracked_frames, 3);
    let a = allocate_frame(&mut r, FrameOwner::Kernel).unwrap();
    assert_eq!(a.start_address, 0x2000);
    let b = allocate_frame(&mut r, FrameOwner::Kernel).unwrap();
    assert_eq!(b.start_address, 0x100000);
}

#[test]
fn memory_map_keeps_at_most_max_frames() {
    let mut r = FrameRegistry::new();
    let regions = [MemoryRegion { start_addr: 0, end_addr: 4096 * 600, usable: true }];
    assert_eq!(init_from_memory_map(&mut r, &regions, 0), Ok(()));
    assert_eq!(status(&r).tracked_frames, 512);
}

#[test]
fn owned_frames_match_allocations_less_releases() {
    let mut registry = FrameRegistry::new();
    registry.init_from_addresses(&[0x1000, 0x2000, 0x3000]).unwrap();
    let a = registry.allocate(FrameOwner::Image).unwrap();
    let b = registry.allocate(FrameOwner::Kernel).unwrap();
    assert_ne!(a.token, b.token);
    registry.release(a.token).unwrap();
    assert_eq!(registry.release(a.token), Err(FrameOwnershipError::AlreadyReleased));
    let s = registry.status();
    assert_eq!(s.allocated_frames as u64, s.allocation_count - s.release_count);
    assert_eq!(s.allocated_frames, 1);
    assert_eq!(s.tracked_frames, 3);
}
