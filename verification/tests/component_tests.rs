use kernel::address_space::AddressSpaceId;
use kernel::frame_ownership::{FrameOwner, FrameOwnershipError, FrameRegistry};
use kernel::load_plan::{LoadAction, LoadPermissions, LoadPlan, LoadRegion};
use kernel::mapping_stub::{map_load_plan, MappingId};
use kernel::performance::metrics::PerformanceCounters;
use kernel::performance::profiler::{with_entries, ProfileEntry, ProfileLog, Profiler};
use kernel::security::{Credentials, RoleId, UserId};
use kernel::storage::{
    init, list_files, new_kernel_storage, unmount, BlockDevice, MemoryBlockDevice, SimpleFs, StorageError,
    DEFAULT_SECTOR_COUNT, SECTOR_SIZE,
};
use kernel::task::context::CpuContext;
use kernel::task::keyboard::{join_parts, parse_block_id, parse_pid};
use kernel::user_context::{DEFAULT_USER_STACK_SIZE, DEFAULT_USER_STACK_TOP};
use kernel::user_memory::{translate, InactiveUserPageTable, UserPageTableId};

fn shell_user() -> Credentials {
    Credentials { user: UserId(1000), role: RoleId(1) }
}

/// The load plan of the one-page sample image: 4 bytes of code copied, the rest of
/// the page zero-filled.
fn sample_plan() -> LoadPlan {
    LoadPlan {
        image_name: String::from("hello"),
        source_path: String::from("/bin/hello.elf"),
        entry_point: 0x40_0000,
        regions: vec![LoadRegion {
            start: 0x40_0000,
            size: 4096,
            page_count: 1,
            permissions: LoadPermissions { read: true, write: false, execute: true },
            actions: vec![
                LoadAction::Copy { source_offset: 0x78, target_address: 0x40_0000, len: 4 },
                LoadAction::ZeroFill { target_address: 0x40_0004, len: 4092 },
            ],
        }],
        total_pages: 1,
        stack_pages: 4,
    }
}

#[test]
fn maps_one_frame_token_per_page() {
    let mapped = map_load_plan(shell_user(), MappingId::from_raw(1), AddressSpaceId::from_raw(1), &sample_plan())
        .expect("mapping should succeed");
    assert_eq!(mapped.total_pages, 1);
    assert_eq!(mapped.regions[0].pages.len(), 1);
    assert_eq!(mapped.regions[0].pages[0].frame.as_u64(), 10_000);
}

#[test]
fn copy_and_zero_fill_are_accounted() {
    let mapped = map_load_plan(shell_user(), MappingId::from_raw(2), AddressSpaceId::from_raw(2), &sample_plan())
        .expect("mapping should succeed");
    assert_eq!(mapped.copied_bytes, 4);
    assert_eq!(mapped.zero_filled_bytes, 4092);
}

#[test]
fn cpu_context_empty_is_zeroed() {
    let context = CpuContext::empty();
    assert_eq!(context.r15, 0);
    assert_eq!(context.r14, 0);
    assert_eq!(context.r13, 0);
    assert_eq!(context.r12, 0);
    assert_eq!(context.rbx, 0);
    assert_eq!(context.rbp, 0);
    assert_eq!(context.rsp, 0);
    assert_eq!(context.rip, 0);
    assert_eq!(context.rflags, 0);
}

#[test]
fn parse_pid_rejects_reserved_pid_zero() {
    assert_eq!(parse_pid("0"), Err("reserved-pid"));
}

#[test]
fn parse_pid_rejects_non_numeric() {
    assert_eq!(parse_pid("abc"), Err("not-a-number"));
}

#[test]
fn parse_pid_accepts_positive_ids() {
    assert_eq!(parse_pid("42"), Ok(42));
}

#[test]
fn parse_block_id_rejects_zero() {
    assert_eq!(parse_block_id("0"), Err("reserved-id"));
}

#[test]
fn join_parts_preserves_spaces_between_words() {
    assert_eq!(join_parts(&["hello", "phase", "7"]), "hello phase 7");
}

#[test]
fn memory_block_device_reads_and_writes_sectors() {
    let mut device = MemoryBlockDevice::new(4);
    let mut write = [0; SECTOR_SIZE];
    write[0] = 42;
    device.write_sector(2, &write).expect("sector write should succeed");

    let mut read = [0; SECTOR_SIZE];
    device.read_sector(2, &mut read).expect("sector read should succeed");
    assert_eq!(read[0], 42);
}

#[test]
fn filesystem_has_default_files() {
    let mut fs = new_kernel_storage();
    init(&mut fs).expect("storage should initialize");
    let files = list_files(&fs).expect("storage should be mounted");
    assert!(files.iter().any(|f| f == "/README.txt"));
}

#[test]
fn unmounted_storage_rejects_access() {
    let mut fs = new_kernel_storage();
    init(&mut fs).expect("storage should initialize");
    unmount(&mut fs);
    assert_eq!(list_files(&fs), Err(StorageError::NotMounted));
    init(&mut fs).expect("storage should initialize again");
    assert!(list_files(&fs).is_ok());
}

#[test]
fn simple_fs_persists_across_remount() {
    let mut fs = SimpleFs::new(MemoryBlockDevice::new(DEFAULT_SECTOR_COUNT));
    fs.format().expect("format should succeed");
    fs.write_file("/persist.txt", "hello").expect("write should succeed");
    fs.unmount();
    fs.mount().expect("remount should succeed");
    assert_eq!(fs.read_file("/persist.txt").expect("read should succeed"), Some("hello".to_string()));
}

#[test]
fn invalid_image_is_rejected() {
    let mut fs = SimpleFs::new(MemoryBlockDevice::new(DEFAULT_SECTOR_COUNT));
    assert_eq!(fs.mount(), Err(StorageError::InvalidImage));
}

#[test]
fn file_lifecycle_create_write_delete() {
    let mut fs = SimpleFs::new(MemoryBlockDevice::new(DEFAULT_SECTOR_COUNT));
    fs.format().expect("format should succeed");
    fs.create_file("/tmp.txt").expect("touch should succeed");
    assert_eq!(fs.read_file("/tmp.txt").expect("read should succeed"), Some(String::new()));
    fs.write_file("/tmp.txt", "updated").expect("write should succeed");
    assert_eq!(fs.read_file("/tmp.txt").expect("read should succeed"), Some("updated".to_string()));
    fs.delete_file("/tmp.txt").expect("delete should succeed");
    assert_eq!(fs.read_file("/tmp.txt").expect("read should succeed"), None);
}

#[test]
fn test_elapsed_cycles_non_zero() {
    let entry = ProfileEntry { label: "synthetic", start_tsc: 100, end_tsc: 200 };
    assert_eq!(entry.elapsed_cycles(), 100);
}

#[test]
fn test_elapsed_cycles_saturates() {
    let entry = ProfileEntry { label: "saturated", start_tsc: 200, end_tsc: 100 };
    assert_eq!(entry.elapsed_cycles(), 0);
}

#[test]
fn test_performance_counters_read() {
    let counters = PerformanceCounters::read(123_456, 7);
    assert!(counters.tsc() > 0);
    assert_eq!(counters.tsc(), 123_456);
    assert_eq!(counters.ticks(), 7);
}

#[test]
fn test_profiler_records_entry() {
    let mut log = ProfileLog::new();
    let p = Profiler::start("test_section", 1_000);
    p.finish(&mut log, 1_250);
    let mut found = false;
    for e in with_entries(&log) {
        if e.label == "test_section" {
            found = true;
            assert!(e.elapsed_cycles() > 0);
        }
    }
    assert!(found, "profiler entry was not recorded");
}

#[test]
fn registry_allocates_and_releases_frames() {
    let mut registry = FrameRegistry::new();
    registry.init_from_addresses(&[0x1000, 0x2000]).expect("registry should initialize");
    let frame = registry.allocate(FrameOwner::Image).expect("frame should allocate");
    assert_eq!(frame.start_address, 0x1000);
    assert_eq!(registry.status().allocated_frames, 1);
    registry.release(frame.token).expect("frame should release");
    assert_eq!(registry.status().allocated_frames, 0);
}

#[test]
fn registry_reports_exhaustion_without_corruption() {
    let mut registry = FrameRegistry::new();
    registry.init_from_addresses(&[0x1000]).expect("registry should initialize");
    let _frame = registry.allocate(FrameOwner::Image).expect("first frame should allocate");
    assert_eq!(registry.allocate(FrameOwner::Image), Err(FrameOwnershipError::Exhausted));
    let status = registry.status();
    assert_eq!(status.allocated_frames, 1);
    assert_eq!(status.failed_allocation_count, 1);
}

#[test]
fn default_user_stack_is_aligned() {
    assert_eq!(DEFAULT_USER_STACK_TOP % 16, 0);
    assert!(DEFAULT_USER_STACK_SIZE >= 4096);
}

#[test]
fn translation_misses_empty_table() {
    let table = InactiveUserPageTable {
        id: UserPageTableId::from_raw(1),
        address_space_id: AddressSpaceId::from_raw(1),
        mappings: Vec::new(),
        mapped_pages: 0,
        executable_pages: 0,
        writable_pages: 0,
        read_only_pages: 0,
        kernel_shared: true,
        cr3_switch_ready: false,
    };
    assert_eq!(translate(&table, 0x400000), None);
}
