use kernel::storage::{
    create_file, delete_file, info, init, is_mounted, list_files, new_kernel_storage, phase7_smoke_check, read_file,
    remount, unmount, write_file, MemoryBlockDevice, SimpleFs, StorageError, MAX_FILES,
};

fn fresh() -> SimpleFs<MemoryBlockDevice> {
    let mut fs = new_kernel_storage();
    assert_eq!(init(&mut fs), Ok(()));
    fs
}

#[test]
fn init_formats_blank_device_and_seeds_files() {
    let fs = fresh();
    assert!(is_mounted(&fs));
    let files = list_files(&fs).unwrap();
    assert_eq!(files, vec!["/README.txt", "/bin/echo", "/bin/time", "/bin/sysinfo", "/bin/fsinfo"]);
    assert_eq!(read_file(&fs, "/README.txt"), Ok(Some(String::from("AresOS persistent storage"))));
    assert_eq!(
        read_file(&fs, "/bin/echo"),
        Ok(Some(String::from("ares-exec-v1\nname=echo\nkind=builtin-alias\nentry=echo\ndescription=builtin: echo")))
    );
}

#[test]
fn info_counts_seeded_files() {
    let fs = fresh();
    let i = info(&fs).unwrap();
    assert!(i.mounted);
    assert_eq!(i.file_count, 5);
    assert_eq!(i.free_slots, MAX_FILES - 5);
    assert_eq!(i.max_files, 16);
    assert_eq!(i.capacity_bytes, 8192);
    assert_eq!(i.max_file_size, 512);
}

#[test]
fn read_after_write_returns_contents() {
    let mut fs = fresh();
    assert_eq!(write_file(&mut fs, "/notes.txt", "hello"), Ok(()));
    assert_eq!(read_file(&fs, "/notes.txt"), Ok(Some(String::from("hello"))));
    assert_eq!(write_file(&mut fs, "/notes.txt", "second"), Ok(()));
    assert_eq!(read_file(&fs, "/notes.txt"), Ok(Some(String::from("second"))));
}

#[test]
fn write_keeps_other_files() {
    let mut fs = fresh();
    assert_eq!(write_file(&mut fs, "/a", "one"), Ok(()));
    assert_eq!(write_file(&mut fs, "/b", "two"), Ok(()));
    assert_eq!(read_file(&fs, "/a"), Ok(Some(String::from("one"))));
    assert_eq!(read_file(&fs, "/README.txt"), Ok(Some(String::from("AresOS persistent storage"))));
}

#[test]
fn files_survive_remount() {
    let mut fs = fresh();
    assert_eq!(write_file(&mut fs, "/persist.txt", "kept"), Ok(()));
    assert_eq!(remount(&mut fs), Ok(()));
    assert_eq!(read_file(&fs, "/persist.txt"), Ok(Some(String::from("kept"))));
}

#[test]
fn delete_removes_file() {
    let mut fs = fresh();
    assert_eq!(write_file(&mut fs, "/gone", "x"), Ok(()));
    assert_eq!(delete_file(&mut fs, "/gone"), Ok(()));
    assert_eq!(read_file(&fs, "/gone"), Ok(None));
    assert_eq!(read_file(&fs, "/README.txt"), Ok(Some(String::from("AresOS persistent storage"))));
    assert_eq!(delete_file(&mut fs, "/gone"), Err(StorageError::NotFound));
}

#[test]
fn relative_path_is_rejected() {
    let mut fs = fresh();
    assert_eq!(write_file(&mut fs, "relative-path", "bad"), Err(StorageError::InvalidPath));
    assert_eq!(read_file(&fs, ""), Err(StorageError::InvalidPath));
    let long = format!("/{}", "x".repeat(48));
    assert_eq!(write_file(&mut fs, &long, "x"), Err(StorageError::InvalidPath));
}

#[test]
fn unmounted_storage_refuses_access() {
    let mut fs = fresh();
    unmount(&mut fs);
    assert!(!is_mounted(&fs));
    assert_eq!(read_file(&fs, "/README.txt"), Err(StorageError::NotMounted));
    assert_eq!(write_file(&mut fs, "/x", "y"), Err(StorageError::NotMounted));
    let i = info(&fs).unwrap();
    assert!(!i.mounted);
    assert_eq!(i.file_count, 0);
    assert_eq!(i.free_slots, 16);
}

#[test]
fn create_existing_file_fails() {
    let mut fs = fresh();
    assert_eq!(create_file(&mut fs, "/new"), Ok(()));
    assert_eq!(read_file(&fs, "/new"), Ok(Some(String::new())));
    assert_eq!(create_file(&mut fs, "/new"), Err(StorageError::AlreadyExists));
}

#[test]
fn oversized_file_is_rejected() {
    let mut fs = fresh();
    let big = "z".repeat(513);
    assert_eq!(write_file(&mut fs, "/big", &big), Err(StorageError::FileTooLarge));
    let max = "z".repeat(512);
    assert_eq!(write_file(&mut fs, "/max", &max), Ok(()));
    assert_eq!(read_file(&fs, "/max"), Ok(Some(max)));
}

#[test]
fn directory_full_reports_no_space() {
    let mut fs = fresh();
    for i in 0..11 {
        assert_eq!(write_file(&mut fs, &format!("/f{}", i), "d"), Ok(()));
    }
    assert_eq!(write_file(&mut fs, "/overflow", "d"), Err(StorageError::NoSpace));
    assert_eq!(info(&fs).unwrap().file_count, 16);
}

#[test]
fn blank_device_does_not_mount() {
    let mut fs = SimpleFs::new(MemoryBlockDevice::new(8));
    assert_eq!(fs.mount(), Err(StorageError::InvalidImage));
    assert_eq!(fs.format(), Ok(()));
    assert!(fs.is_mounted());
    assert_eq!(fs.list_files(), Ok(Vec::new()));
}

#[test]
fn error_messages_match_shell_text() {
    assert_eq!(StorageError::NotMounted.message(), "storage not mounted");
    assert_eq!(StorageError::NoSpace.message(), "no storage space available");
    assert_eq!(StorageError::Io.message(), "storage I/O error");
}

#[test]
fn phase7_smoke_check_passes() {
    let mut fs = fresh();
    assert!(phase7_smoke_check(&mut fs));
    assert_eq!(read_file(&fs, "/phase7-smoke.txt"), Ok(Some(String::from("persistent-ok"))));
}

#[test]
fn format_reseeds_bootstrap_files() {
    let mut fs = fresh();
    assert_eq!(write_file(&mut fs, "/extra", "e"), Ok(()));
    assert_eq!(kernel::storage::format(&mut fs), Ok(()));
    assert_eq!(read_file(&fs, "/extra"), Ok(None));
    assert_eq!(list_files(&fs).unwrap().len(), 5);
}

#[test]
fn listing_after_writes_adds_each_path_once() {
    let mut fs = fresh();
    let before = list_files(&fs).unwrap();
    assert_eq!(write_file(&mut fs, "/notes", "one"), Ok(()));
    assert_eq!(write_file(&mut fs, "/notes", "two"), Ok(()));
    let after = list_files(&fs).unwrap();
    assert_eq!(after.len(), before.len() + 1);
    assert_eq!(after.iter().filter(|p| p.as_str() == "/notes").count(), 1);
    for p in &before {
        assert!(after.contains(p));
    }
    assert_eq!(read_file(&fs, "/notes"), Ok(Some(String::from("two"))));
}
