//! Block-device storage boundary and the tiny ARESFS filesystem.
//!
//! Layout of a formatted device (512-byte sectors):
//! * sector 0: header — magic `ARESFS1\0`, version 1 (u32 LE), file count (u32 LE);
//! * sectors 1..3: directory — 16 entries of 64 bytes;
//! * sector 3 + i: contents of the file in directory slot i.

use vstd::prelude::*;
use vstd::utf8::*;
use crate::text::utf8_to_string;

verus! {

broadcast use vstd::std_specs::vec::group_vec_axioms, vstd::array::group_array_axioms;

pub const SECTOR_SIZE: usize = 512;
pub const DEFAULT_SECTOR_COUNT: usize = 64;
pub const VERSION: u32 = 1;
pub const HEADER_SECTOR: usize = 0;
pub const DIRECTORY_START_SECTOR: usize = 1;
pub const DIRECTORY_SECTORS: usize = 2;
pub const DATA_START_SECTOR: usize = 3;
pub const MAX_FILES: usize = 16;
pub const MAX_PATH_LEN: usize = 48;
pub const MAX_FILE_SIZE: usize = 512;
pub const DIR_ENTRY_SIZE: usize = 64;
/// Bytes the filesystem can hold: one sector per file.
pub const CAPACITY_BYTES: usize = 8192;

#[derive(Debug, Clone, Copy, PartialEq, Eq, Structural)]
pub enum StorageError {
    NotMounted,
    InvalidPath,
    NotFound,
    AlreadyExists,
    NoSpace,
    FileTooLarge,
    InvalidImage,
    Io,
}

impl StorageError {
    /// The text of this error's message.
    pub open spec fn spec_message(self) -> Seq<char> {
        match self {
            StorageError::NotMounted => "storage not mounted"@,
            StorageError::InvalidPath => "invalid path"@,
            StorageError::NotFound => "file not found"@,
            StorageError::AlreadyExists => "file already exists"@,
            StorageError::NoSpace => "no storage space available"@,
            StorageError::FileTooLarge => "file too large"@,
            StorageError::InvalidImage => "invalid filesystem image"@,
            StorageError::Io => "storage I/O error"@,
        }
    }

    /// The message the kernel shell prints for this error.
    pub fn message(&self) -> (r: &'static str)
        ensures
            r@ == self.spec_message(),
    {
        match self {
            StorageError::NotMounted => "storage not mounted",
            StorageError::InvalidPath => "invalid path",
            StorageError::NotFound => "file not found",
            StorageError::AlreadyExists => "file already exists",
            StorageError::NoSpace => "no storage space available",
            StorageError::FileTooLarge => "file too large",
            StorageError::InvalidImage => "invalid filesystem image",
            StorageError::Io => "storage I/O error",
        }
    }
}

#[derive(Debug, Clone, Copy, PartialEq, Eq, Structural)]
pub struct StorageInfo {
    pub mounted: bool,
    pub file_count: usize,
    pub max_files: usize,
    pub free_slots: usize,
    pub capacity_bytes: usize,
    pub max_file_size: usize,
}

/// A device of fixed-size sectors.
pub trait BlockDevice {
    /// The contents of every sector, in order.
    spec fn sector_data(&self) -> Seq<Seq<u8>>;

    fn sector_count(&self) -> (n: usize)
        ensures
            n == self.sector_data().len(),
    ;

    fn read_sector(&self, sector: usize, buffer: &mut [u8; SECTOR_SIZE]) -> (r: Result<
        (),
        StorageError,
    >)
        ensures
            sector < self.sector_data().len() ==> r == Ok::<(), StorageError>(()) && final(buffer)@ == self.sector_data()[sector as int],
            sector >= self.sector_data().len() ==> r == Err::<(), StorageError>(StorageError::Io) && final(buffer)@ == old(buffer)@,
    ;

    fn write_sector(&mut self, sector: usize, buffer: &[u8; SECTOR_SIZE]) -> (r: Result<
        (),
        StorageError,
    >)
        ensures
            sector < old(self).sector_data().len() ==> r == Ok::<(), StorageError>(()) && final(self).sector_data() == old(
                self,
            ).sector_data().update(sector as int, buffer@),
            sector >= old(self).sector_data().len() ==> r == Err::<(), StorageError>(
                StorageError::Io,
            ) && final(self).sector_data() == old(self).sector_data(),
    ;
}

/// A block device held in memory.
#[derive(Clone)]
pub struct MemoryBlockDevice {
    sectors: Vec<[u8; SECTOR_SIZE]>,
}

pub open spec fn zero_sector() -> Seq<u8> {
    Seq::new(SECTOR_SIZE as nat, |i: int| 0u8)
}

impl MemoryBlockDevice {
    pub fn new(sector_count: usize) -> (r: Self)
        ensures
            r.sector_data() == Seq::new(sector_count as nat, |i: int| zero_sector()),
    {
        let mut sectors: Vec<[u8; SECTOR_SIZE]> = Vec::new();
        let mut i: usize = 0;
        while i < sector_count
            invariant
                i <= sector_count,
                sectors@.len() == i,
                forall|j: int| 0 <= j < i ==> #[trigger] sectors@[j]@ == zero_sector(),
            decreases sector_count - i,
        {
            let zero: [u8; SECTOR_SIZE] = [0u8; SECTOR_SIZE];
            assert(zero@ =~= zero_sector());
            sectors.push(zero);
            i = i + 1;
        }
        let r = MemoryBlockDevice { sectors };
        assert(r.sector_data() =~= Seq::new(sector_count as nat, |i: int| zero_sector()));
        r
    }
}

impl BlockDevice for MemoryBlockDevice {
    closed spec fn sector_data(&self) -> Seq<Seq<u8>> {
        self.sectors@.map_values(|s: [u8; SECTOR_SIZE]| s@)
    }

    fn sector_count(&self) -> (n: usize) {
        self.sectors.len()
    }

    fn read_sector(&self, sector: usize, buffer: &mut [u8; SECTOR_SIZE]) -> (r: Result<
        (),
        StorageError,
    >) {
        if sector < self.sectors.len() {
            *buffer = self.sectors[sector];
            Ok(())
        } else {
            Err(StorageError::Io)
        }
    }

    fn write_sector(&mut self, sector: usize, buffer: &[u8; SECTOR_SIZE]) -> (r: Result<
        (),
        StorageError,
    >) {
        if sector < self.sectors.len() {
            self.sectors.set(sector, *buffer);
            assert(self.sector_data() =~= old(self).sector_data().update(sector as int, buffer@));
            Ok(())
        } else {
            Err(StorageError::Io)
        }
    }
}


// ───────────────────────────── on-disk format ─────────────────────────────

/// The eight bytes `ARESFS1\0` that open a formatted header sector.
pub open spec fn magic() -> Seq<u8> {
    seq![0x41u8, 0x52u8, 0x45u8, 0x53u8, 0x46u8, 0x53u8, 0x31u8, 0x00u8]
}

fn magic_byte(i: usize) -> (b: u8)
    requires
        i < 8,
    ensures
        b == magic()[i as int],
{
    match i {
        0 => 0x41,
        1 => 0x52,
        2 => 0x45,
        3 => 0x53,
        4 => 0x46,
        5 => 0x53,
        6 => 0x31,
        _ => 0x00,
    }
}

/// Little-endian 16-bit value at `b[i..i + 2]`.
pub open spec fn le16(b: Seq<u8>, i: int) -> nat {
    b[i] as nat + 256 * (b[i + 1] as nat)
}

/// Little-endian 32-bit value at `b[i..i + 4]`.
pub open spec fn le32(b: Seq<u8>, i: int) -> nat {
    b[i] as nat + 256 * (b[i + 1] as nat) + 65536 * (b[i + 2] as nat) + 16777216 * (b[i + 3] as nat)
}

/// The header sector recording `count` files.
pub open spec fn header_sector(count: nat) -> Seq<u8> {
    Seq::new(
        SECTOR_SIZE as nat,
        |i: int|
            if i < 8 {
                magic()[i]
            } else if i == 8 {
                1u8
            } else if i == 12 {
                (count % 256) as u8
            } else if i == 13 {
                ((count / 256) % 256) as u8
            } else if i == 14 {
                ((count / 65536) % 256) as u8
            } else if i == 15 {
                ((count / 16777216) % 256) as u8
            } else {
                0u8
            },
    )
}

/// What reading the header of `disk` gives: the recorded file count, or the error.
pub open spec fn header_result(disk: Seq<Seq<u8>>) -> Result<nat, StorageError> {
    if disk.len() == 0 {
        Err(StorageError::Io)
    } else if disk[0].subrange(0, 8) != magic() {
        Err(StorageError::InvalidImage)
    } else if le32(disk[0], 8) != VERSION {
        Err(StorageError::InvalidImage)
    } else {
        Ok(le32(disk[0], 12))
    }
}

/// A path the filesystem accepts: `/`-rooted, 1 to 48 bytes, no NUL byte.
pub open spec fn path_is_valid(p: Seq<u8>) -> bool {
    &&& 0 < p.len() <= MAX_PATH_LEN
    &&& p[0] == 0x2fu8
    &&& forall|i: int| 0 <= i < p.len() ==> p[i] != 0u8
}

/// Checks a path the way every file operation does.
pub fn validate_path(path: &str) -> (r: Result<(), StorageError>)
    ensures
        r is Ok <==> path_is_valid(encode_utf8(path@)),
        r is Err ==> r == Err::<(), StorageError>(StorageError::InvalidPath),
{
    let bytes = path.as_bytes();
    if bytes.len() == 0 || bytes.len() > MAX_PATH_LEN || bytes[0] != 0x2f {
        return Err(StorageError::InvalidPath);
    }
    let mut i: usize = 0;
    while i < bytes.len()
        invariant
            i <= bytes@.len(),
            bytes@ == encode_utf8(path@),
            forall|j: int| 0 <= j < i ==> bytes@[j] != 0u8,
        decreases bytes@.len() - i,
    {
        if bytes[i] == 0 {
            return Err(StorageError::InvalidPath);
        }
        i = i + 1;
    }
    Ok(())
}

pub proof fn lemma_header_round_trip(disk: Seq<Seq<u8>>, count: nat)
    requires
        disk.len() > 0,
        disk[0] == header_sector(count),
        count < 0x1_0000_0000,
    ensures
        header_result(disk) == Ok::<nat, StorageError>(count),
{
    let h = header_sector(count);
    assert(h.subrange(0, 8) =~= magic());
    assert(le32(h, 8) == 1);
    assert(h[12] == (count % 256) as u8);
    assert(h[13] == ((count / 256) % 256) as u8);
    assert(h[14] == ((count / 65536) % 256) as u8);
    assert(h[15] == ((count / 16777216) % 256) as u8);
    assert(le32(h, 12) == count) by (nonlinear_arith)
        requires
            h[12] as nat == count % 256,
            h[13] as nat == (count / 256) % 256,
            h[14] as nat == (count / 65536) % 256,
            h[15] as nat == (count / 16777216) % 256,
            count < 0x1_0000_0000,
            le32(h, 12) == h[12] as nat + 256 * (h[13] as nat) + 65536 * (h[14] as nat)
                + 16777216 * (h[15] as nat),
    ;
}

// ───────────────────────────── the filesystem ─────────────────────────────

/// The ARESFS filesystem over a block device.
pub struct SimpleFs<D: BlockDevice> {
    device: D,
    mounted: bool,
}

impl<D: BlockDevice> SimpleFs<D> {
    /// The sectors of the underlying device.
    pub closed spec fn disk(&self) -> Seq<Seq<u8>> {
        self.device.sector_data()
    }

    /// Whether the filesystem is mounted.
    pub closed spec fn mounted(&self) -> bool {
        self.mounted
    }

    pub fn new(device: D) -> (r: Self)
        ensures
            r.disk() == device.sector_data(),
            !r.mounted(),
    {
        SimpleFs { device, mounted: false }
    }

    pub fn unmount(&mut self)
        ensures
            final(self).disk() == old(self).disk(),
            !final(self).mounted(),
    {
        self.mounted = false;
    }

    pub fn is_mounted(&self) -> (r: bool)
        ensures
            r == self.mounted(),
    {
        self.mounted
    }

    fn write_header(&mut self, file_count: usize) -> (r: Result<(), StorageError>)
        requires
            file_count <= MAX_FILES,
        ensures
            final(self).mounted == old(self).mounted,
            old(self).disk().len() > 0 ==> r == Ok::<(), StorageError>(()) && final(self).disk() == old(self).disk().update(
                0,
                header_sector(file_count as nat),
            ),
            old(self).disk().len() == 0 ==> r == Err::<(), StorageError>(StorageError::Io)
                && final(self).disk() == old(self).disk(),
    {
        let mut sector: [u8; SECTOR_SIZE] = [0u8; SECTOR_SIZE];
        let mut i: usize = 0;
        while i < 8
            invariant
                i <= 8,
                forall|j: int| 0 <= j < i ==> sector@[j] == magic()[j],
                forall|j: int| i <= j < SECTOR_SIZE ==> sector@[j] == 0u8,
            decreases 8 - i,
        {
            sector[i] = magic_byte(i);
            i = i + 1;
        }
        sector[8] = 1;
        sector[12] = file_count as u8;
        assert(sector@ =~= header_sector(file_count as nat));
        self.device.write_sector(HEADER_SECTOR, &sector)
    }

    fn read_header(&self) -> (r: Result<usize, StorageError>)
        ensures
            match header_result(self.disk()) {
                Ok(c) => r == Ok::<usize, StorageError>(c as usize),
                Err(e) => r == Err::<usize, StorageError>(e),
            },
    {
        let mut sector: [u8; SECTOR_SIZE] = [0u8; SECTOR_SIZE];
        let rd = self.device.read_sector(HEADER_SECTOR, &mut sector);
        if rd.is_err() {
            return Err(StorageError::Io);
        }
        let mut i: usize = 0;
        while i < 8
            invariant
                i <= 8,
                sector@ == self.disk()[0],
                self.disk().len() > 0,
                forall|j: int| 0 <= j < i ==> sector@[j] == magic()[j],
            decreases 8 - i,
        {
            if sector[i] != magic_byte(i) {
                assert(sector@.subrange(0, 8)[i as int] != magic()[i as int]);
                return Err(StorageError::InvalidImage);
            }
            i = i + 1;
        }
        assert(sector@.subrange(0, 8) =~= magic());
        let version: u32 = sector[8] as u32 + 256 * (sector[9] as u32) + 65536 * (sector[10] as u32)
            + 16777216 * (sector[11] as u32);
        if version != VERSION {
            return Err(StorageError::InvalidImage);
        }
        let count: u32 = sector[12] as u32 + 256 * (sector[13] as u32) + 65536 * (sector[14] as u32)
            + 16777216 * (sector[15] as u32);
        Ok(count as usize)
    }

    /// Erases every sector, writes an empty header and mounts the result.
    pub fn format(&mut self) -> (r: Result<(), StorageError>)
        ensures
            final(self).disk().len() == old(self).disk().len(),
            old(self).disk().len() > 0 ==> r == Ok::<(), StorageError>(()),
            old(self).disk().len() == 0 ==> r == Err::<(), StorageError>(StorageError::Io)
                && final(self).mounted() == old(self).mounted(),
            r is Ok ==> final(self).mounted() && final(self).disk() == Seq::new(
                old(self).disk().len(),
                |i: int| if i == 0 { header_sector(0) } else { zero_sector() },
            ),
    {
        let count = self.device.sector_count();
        let zero: [u8; SECTOR_SIZE] = [0u8; SECTOR_SIZE];
        assert(zero@ =~= zero_sector());
        let mut sector: usize = 0;
        while sector < count
            invariant
                sector <= count,
                count == old(self).disk().len(),
                self.disk().len() == count,
                zero@ == zero_sector(),
                self.mounted == old(self).mounted,
                forall|j: int| 0 <= j < sector ==> #[trigger] self.disk()[j] == zero_sector(),
            decreases count - sector,
        {
            let w = self.device.write_sector(sector, &zero);
            if w.is_err() {
                return w;
            }
            sector = sector + 1;
        }
        let h = self.write_header(0);
        if h.is_err() {
            return h;
        }
        self.mounted = true;
        assert(self.disk() =~= Seq::new(
            old(self).disk().len(),
            |i: int| if i == 0 { header_sector(0) } else { zero_sector() },
        ));
        Ok(())
    }

    /// Mounts an existing image after checking its header.
    pub fn mount(&mut self) -> (r: Result<(), StorageError>)
        ensures
            final(self).disk() == old(self).disk(),
            match header_result(old(self).disk()) {
                Err(e) => r == Err::<(), StorageError>(e) && final(self).mounted() == old(self).mounted(),
                Ok(c) => if c > MAX_FILES {
                    r == Err::<(), StorageError>(StorageError::InvalidImage) && final(self).mounted()
                        == old(self).mounted()
                } else {
                    r == Ok::<(), StorageError>(()) && final(self).mounted()
                },
            },
    {
        let count = self.read_header()?;
        if count > MAX_FILES {
            return Err(StorageError::InvalidImage);
        }
        self.mounted = true;
        Ok(())
    }
}


// ───────────────────────────── directory entries ─────────────────────────────

/// A directory slot as the filesystem understands it.
pub struct EntryView {
    /// UTF-8 bytes of the file's path.
    pub path: Seq<u8>,
    /// Length of the file in bytes.
    pub len: nat,
    /// Sector that holds the file's contents.
    pub data_sector: nat,
}

/// Decodes one 64-byte directory slot.
pub open spec fn decode_entry_spec(b: Seq<u8>) -> Result<Option<EntryView>, StorageError> {
    if b[0] == 0 {
        Ok(None)
    } else {
        let path_len = b[1] as nat;
        let len = le16(b, 2);
        let data_sector = le16(b, 4);
        if path_len == 0 || path_len > MAX_PATH_LEN || len > MAX_FILE_SIZE {
            Err(StorageError::InvalidImage)
        } else if data_sector < DATA_START_SECTOR || data_sector >= DATA_START_SECTOR + MAX_FILES {
            Err(StorageError::InvalidImage)
        } else {
            let path = b.subrange(8, 8 + path_len as int);
            if !valid_utf8(path) {
                Err(StorageError::InvalidImage)
            } else if !path_is_valid(path) {
                Err(StorageError::InvalidPath)
            } else {
                Ok(Some(EntryView { path, len, data_sector }))
            }
        }
    }
}

/// The 64 bytes that store a directory slot.
pub open spec fn encode_entry_spec(e: Option<EntryView>) -> Seq<u8> {
    match e {
        None => Seq::new(DIR_ENTRY_SIZE as nat, |i: int| 0u8),
        Some(e) => Seq::new(
            DIR_ENTRY_SIZE as nat,
            |i: int|
                if i == 0 {
                    1u8
                } else if i == 1 {
                    e.path.len() as u8
                } else if i == 2 {
                    (e.len % 256) as u8
                } else if i == 3 {
                    ((e.len / 256) % 256) as u8
                } else if i == 4 {
                    (e.data_sector % 256) as u8
                } else if i == 5 {
                    ((e.data_sector / 256) % 256) as u8
                } else if 8 <= i < 8 + e.path.len() {
                    e.path[i - 8]
                } else {
                    0u8
                },
        ),
    }
}

/// A slot that this filesystem writes: a valid path, a bounded length and a data sector
/// in the data area.
pub open spec fn entry_is_sound(e: EntryView) -> bool {
    &&& path_is_valid(e.path)
    &&& valid_utf8(e.path)
    &&& e.len <= MAX_FILE_SIZE
    &&& DATA_START_SECTOR <= e.data_sector < DATA_START_SECTOR + MAX_FILES
}

/// Decoding the bytes that encode a directory slot gives the slot back: an empty
/// slot encodes as 64 zero bytes and decodes as empty, and a sound entry decodes
/// to the same path, length and data sector.
pub proof fn law_entry_round_trip(e: Option<EntryView>)
    requires
        e matches Some(x) ==> entry_is_sound(x),
    ensures
        decode_entry_spec(encode_entry_spec(e)) == Ok::<Option<EntryView>, StorageError>(e),
{
    let b = encode_entry_spec(e);
    if let Some(x) = e {
        assert(b[0] == 1u8);
        assert(b[1] as nat == x.path.len());
        assert(le16(b, 2) == x.len);
        assert(le16(b, 4) == x.data_sector);
        assert(b.subrange(8, 8 + x.path.len() as int) =~= x.path);
    }
}

/// The first `n` slots of a directory area, or the first error met while decoding them.
pub open spec fn decode_entries(bytes: Seq<u8>, n: nat) -> Result<Seq<Option<EntryView>>, StorageError>
    decreases n,
{
    if n == 0 {
        Ok(Seq::empty())
    } else {
        match decode_entries(bytes, (n - 1) as nat) {
            Err(e) => Err(e),
            Ok(prefix) => match decode_entry_spec(
                bytes.subrange((n - 1) * DIR_ENTRY_SIZE, n * DIR_ENTRY_SIZE),
            ) {
                Err(e) => Err(e),
                Ok(x) => Ok(prefix.push(x)),
            },
        }
    }
}

proof fn lemma_decode_entries_err_sticks(bytes: Seq<u8>, k: nat, n: nat, e: StorageError)
    requires
        k <= n,
        decode_entries(bytes, k) == Err::<Seq<Option<EntryView>>, StorageError>(e),
    ensures
        decode_entries(bytes, n) == Err::<Seq<Option<EntryView>>, StorageError>(e),
    decreases n - k,
{
    if k < n {
        lemma_decode_entries_err_sticks(bytes, k, (n - 1) as nat, e);
    }
}

proof fn lemma_decode_entries_sound(bytes: Seq<u8>, n: nat)
    requires
        decode_entries(bytes, n) is Ok,
    ensures
        decode_entries(bytes, n)->Ok_0.len() == n,
        forall|i: int|
            0 <= i < n ==> (#[trigger] decode_entries(bytes, n)->Ok_0[i] matches Some(e)
                ==> entry_is_sound(e)),
    decreases n,
{
    if n > 0 {
        lemma_decode_entries_sound(bytes, (n - 1) as nat);
    }
}

proof fn lemma_decode_entries_len(bytes: Seq<u8>, n: nat)
    requires
        decode_entries(bytes, n) is Ok,
    ensures
        decode_entries(bytes, n)->Ok_0.len() == n,
    decreases n,
{
    if n > 0 {
        lemma_decode_entries_len(bytes, (n - 1) as nat);
    }
}

/// The bytes of the directory area of `disk`.
pub open spec fn directory_bytes(disk: Seq<Seq<u8>>) -> Seq<u8> {
    disk[1] + disk[2]
}

/// What reading the directory gives: the 16 slots, or the error.
pub open spec fn directory_result(mounted: bool, disk: Seq<Seq<u8>>) -> Result<
    Seq<Option<EntryView>>,
    StorageError,
> {
    if !mounted {
        Err(StorageError::NotMounted)
    } else {
        match header_result(disk) {
            Err(e) => Err(e),
            Ok(_) => if disk.len() < DATA_START_SECTOR {
                Err(StorageError::Io)
            } else {
                decode_entries(directory_bytes(disk), MAX_FILES as nat)
            },
        }
    }
}

/// Index of the first slot that holds `path`.
pub open spec fn find_entry(entries: Seq<Option<EntryView>>, path: Seq<u8>) -> Option<int>
    decreases entries.len(),
{
    if entries.len() == 0 {
        None
    } else {
        match find_entry(entries.drop_last(), path) {
            Some(i) => Some(i),
            None => if entries.last() matches Some(e) && e.path == path {
                Some(entries.len() - 1)
            } else {
                None
            },
        }
    }
}

/// Index of the first free slot.
pub open spec fn find_free(entries: Seq<Option<EntryView>>) -> Option<int>
    decreases entries.len(),
{
    if entries.len() == 0 {
        None
    } else {
        match find_free(entries.drop_last()) {
            Some(i) => Some(i),
            None => if entries.last() is None {
                Some(entries.len() - 1)
            } else {
                None
            },
        }
    }
}

/// What reading `path` gives: its bytes, `None` when no slot holds it, or the error.
pub open spec fn read_file_result(mounted: bool, disk: Seq<Seq<u8>>, path: Seq<u8>) -> Result<
    Option<Seq<u8>>,
    StorageError,
> {
    if !path_is_valid(path) {
        Err(StorageError::InvalidPath)
    } else {
        match directory_result(mounted, disk) {
            Err(e) => Err(e),
            Ok(entries) => match find_entry(entries, path) {
                None => Ok(None),
                Some(i) => {
                    let e = entries[i]->Some_0;
                    if e.data_sector >= disk.len() {
                        Err(StorageError::Io)
                    } else {
                        let data = disk[e.data_sector as int].subrange(0, e.len as int);
                        if valid_utf8(data) {
                            Ok(Some(data))
                        } else {
                            Err(StorageError::InvalidImage)
                        }
                    }
                },
            },
        }
    }
}

/// The paths of the occupied slots, in slot order.
pub open spec fn listed_paths(entries: Seq<Option<EntryView>>) -> Seq<Seq<u8>>
    decreases entries.len(),
{
    if entries.len() == 0 {
        Seq::empty()
    } else {
        let prefix = listed_paths(entries.drop_last());
        match entries.last() {
            Some(e) => prefix.push(e.path),
            None => prefix,
        }
    }
}

/// Number of occupied slots.
pub open spec fn occupied_count(entries: Seq<Option<EntryView>>) -> nat
    decreases entries.len(),
{
    if entries.len() == 0 {
        0
    } else {
        occupied_count(entries.drop_last()) + if entries.last() is Some {
            1nat
        } else {
            0nat
        }
    }
}

proof fn lemma_occupied_count_bound(entries: Seq<Option<EntryView>>)
    ensures
        occupied_count(entries) <= entries.len(),
    decreases entries.len(),
{
    if entries.len() > 0 {
        lemma_occupied_count_bound(entries.drop_last());
    }
}

/// A decoded directory slot held in memory.
#[derive(Clone)]
struct DirectoryEntry {
    path: String,
    len: usize,
    data_sector: usize,
}

spec fn entry_view(e: Option<DirectoryEntry>) -> Option<EntryView> {
    match e {
        None => None,
        Some(d) => Some(
            EntryView { path: encode_utf8(d.path@), len: d.len as nat, data_sector: d.data_sector as nat },
        ),
    }
}

spec fn entries_view(v: Seq<Option<DirectoryEntry>>) -> Seq<Option<EntryView>> {
    v.map_values(|e: Option<DirectoryEntry>| entry_view(e))
}

proof fn lemma_encode_utf8_injective(a: Seq<char>, b: Seq<char>)
    requires
        encode_utf8(a) == encode_utf8(b),
    ensures
        a == b,
{
    encode_utf8_decode_utf8(a);
    encode_utf8_decode_utf8(b);
}

fn clone_entry(e: &Option<DirectoryEntry>) -> (r: Option<DirectoryEntry>)
    ensures
        entry_view(r) == entry_view(*e),
{
    match e {
        None => None,
        Some(d) => Some(DirectoryEntry { path: d.path.clone(), len: d.len, data_sector: d.data_sector }),
    }
}

fn decode_entry(input: &[u8]) -> (r: Result<Option<DirectoryEntry>, StorageError>)
    requires
        input@.len() == DIR_ENTRY_SIZE,
    ensures
        match decode_entry_spec(input@) {
            Ok(x) => r is Ok && entry_view(r->Ok_0) == x,
            Err(e) => r == Err::<Option<DirectoryEntry>, StorageError>(e),
        },
{
    if input[0] == 0 {
        return Ok(None);
    }
    let path_len = input[1] as usize;
    let len = input[2] as usize + 256 * (input[3] as usize);
    let data_sector = input[4] as usize + 256 * (input[5] as usize);
    if path_len == 0 || path_len > MAX_PATH_LEN || len > MAX_FILE_SIZE {
        return Err(StorageError::InvalidImage);
    }
    if data_sector < DATA_START_SECTOR || data_sector >= DATA_START_SECTOR + MAX_FILES {
        return Err(StorageError::InvalidImage);
    }
    let path_bytes = &input[8..8 + path_len];
    let path = match utf8_to_string(path_bytes) {
        Some(p) => p,
        None => return Err(StorageError::InvalidImage),
    };
    let pv = validate_path(path.as_str());
    if pv.is_err() {
        return Err(StorageError::InvalidPath);
    }
    Ok(Some(DirectoryEntry { path, len, data_sector }))
}

fn encode_entry(entry: &Option<DirectoryEntry>) -> (r: Result<[u8; DIR_ENTRY_SIZE], StorageError>)
    ensures
        match entry_view(*entry) {
            None => r is Ok && r->Ok_0@ == encode_entry_spec(None),
            Some(e) => if e.path.len() > MAX_PATH_LEN || e.len > MAX_FILE_SIZE {
                r == Err::<[u8; DIR_ENTRY_SIZE], StorageError>(StorageError::InvalidImage)
            } else {
                r is Ok && r->Ok_0@ == encode_entry_spec(Some(e))
            },
        },
{
    let mut out: [u8; DIR_ENTRY_SIZE] = [0u8; DIR_ENTRY_SIZE];
    match entry {
        None => {
            assert(out@ =~= encode_entry_spec(None));
            Ok(out)
        },
        Some(d) => {
            let path = d.path.as_str().as_bytes();
            if path.len() > MAX_PATH_LEN || d.len > MAX_FILE_SIZE {
                return Err(StorageError::InvalidImage);
            }
            out[0] = 1;
            out[1] = path.len() as u8;
            out[2] = (d.len % 256) as u8;
            out[3] = ((d.len / 256) % 256) as u8;
            out[4] = (d.data_sector % 256) as u8;
            out[5] = ((d.data_sector / 256) % 256) as u8;
            let ghost ev = entry_view(*entry)->Some_0;
            let mut i: usize = 0;
            while i < path.len()
                invariant
                    i <= path@.len(),
                    path@ == ev.path,
                    path@.len() <= MAX_PATH_LEN,
                    ev.len == d.len,
                    ev.data_sector == d.data_sector,
                    forall|j: int|
                        0 <= j < 8 + i ==> out@[j] == #[trigger] encode_entry_spec(Some(ev))[j],
                    forall|j: int| 8 + i <= j < DIR_ENTRY_SIZE ==> out@[j] == 0u8,
                decreases path@.len() - i,
            {
                out[8 + i] = path[i];
                i = i + 1;
            }
            assert(out@ =~= encode_entry_spec(Some(ev)));
            Ok(out)
        },
    }
}


impl<D: BlockDevice> SimpleFs<D> {
    /// The slots as `read_directory` reports them.
    pub open spec fn spec_directory(&self) -> Result<Seq<Option<EntryView>>, StorageError> {
        directory_result(self.mounted(), self.disk())
    }

    /// What reading `path` (given as UTF-8 bytes) gives.
    pub open spec fn spec_read_file(&self, path: Seq<u8>) -> Result<Option<Seq<u8>>, StorageError> {
        read_file_result(self.mounted(), self.disk(), path)
    }

    fn read_directory(&self) -> (r: Result<Vec<Option<DirectoryEntry>>, StorageError>)
        ensures
            match self.spec_directory() {
                Ok(es) => r is Ok && entries_view(r->Ok_0@) == es,
                Err(e) => r == Err::<Vec<Option<DirectoryEntry>>, StorageError>(e),
            },
    {
        if !self.mounted {
            return Err(StorageError::NotMounted);
        }
        match self.read_header() {
            Err(e) => return Err(e),
            Ok(_) => {},
        }
        let mut s1: [u8; SECTOR_SIZE] = [0u8; SECTOR_SIZE];
        if self.device.read_sector(DIRECTORY_START_SECTOR, &mut s1).is_err() {
            return Err(StorageError::Io);
        }
        let mut s2: [u8; SECTOR_SIZE] = [0u8; SECTOR_SIZE];
        if self.device.read_sector(DIRECTORY_START_SECTOR + 1, &mut s2).is_err() {
            return Err(StorageError::Io);
        }
        let ghost bytes = directory_bytes(self.disk());
        assert(bytes.len() == 2 * SECTOR_SIZE);
        let a1: &[u8] = s1.as_slice();
        let a2: &[u8] = s2.as_slice();
        let mut entries: Vec<Option<DirectoryEntry>> = Vec::new();
        let mut index: usize = 0;
        while index < MAX_FILES
            invariant
                index <= MAX_FILES,
                bytes == directory_bytes(self.disk()),
                bytes.len() == 2 * SECTOR_SIZE,
                self.mounted,
                header_result(self.disk()) is Ok,
                self.disk().len() >= 3,
                a1@.len() == SECTOR_SIZE,
                a2@.len() == SECTOR_SIZE,
                a1@ == self.disk()[1],
                a2@ == self.disk()[2],
                decode_entries(bytes, index as nat) is Ok,
                entries_view(entries@) == decode_entries(bytes, index as nat)->Ok_0,
            decreases MAX_FILES - index,
        {
            proof {
                lemma_slot_bytes(self.disk(), index as int);
            }
            let slot: &[u8] = if index < 8 {
                &a1[index * DIR_ENTRY_SIZE..index * DIR_ENTRY_SIZE + DIR_ENTRY_SIZE]
            } else {
                &a2[(index - 8) * DIR_ENTRY_SIZE..(index - 8) * DIR_ENTRY_SIZE + DIR_ENTRY_SIZE]
            };
            match decode_entry(slot) {
                Err(e) => {
                    assert(decode_entry_spec(bytes.subrange(index * 64, (index + 1) * 64)) == Err::<Option<EntryView>, StorageError>(e));
                    assert(decode_entries(bytes, (index + 1) as nat) == Err::<Seq<Option<EntryView>>, StorageError>(e));
                    proof {
                        lemma_decode_entries_err_sticks(bytes, (index + 1) as nat, MAX_FILES as nat, e);
                    }
                    return Err(e);
                },
                Ok(x) => {
                    entries.push(x);
                    assert(entries_view(entries@) =~= decode_entries(bytes, (index + 1) as nat)->Ok_0);
                },
            }
            index = index + 1;
        }
        Ok(entries)
    }

    /// Reads a file's contents; `None` when no file has that path.
    pub fn read_file(&self, path: &str) -> (r: Result<Option<String>, StorageError>)
        ensures
            match self.spec_read_file(encode_utf8(path@)) {
                Ok(Some(data)) => r matches Ok(Some(s)) && encode_utf8(s@) == data,
                Ok(None) => r == Ok::<Option<String>, StorageError>(None),
                Err(e) => r == Err::<Option<String>, StorageError>(e),
            },
    {
        if validate_path(path).is_err() {
            return Err(StorageError::InvalidPath);
        }
        let entries = match self.read_directory() {
            Ok(es) => es,
            Err(e) => return Err(e),
        };
        let ghost ev = entries_view(entries@);
        proof {
            lemma_decode_entries_sound(directory_bytes(self.disk()), MAX_FILES as nat);
        }
        let ghost pb = encode_utf8(path@);
        let target = path.to_owned();
        let mut i: usize = 0;
        while i < entries.len()
            invariant
                i <= entries@.len(),
                ev == entries_view(entries@),
                target@ == path@,
                pb == encode_utf8(path@),
                path_is_valid(pb),
                self.spec_directory() == Ok::<Seq<Option<EntryView>>, StorageError>(ev),
                ev.len() == MAX_FILES,
                forall|j: int| 0 <= j < ev.len() ==> (#[trigger] ev[j] matches Some(e) ==> entry_is_sound(e)),
                find_entry(ev.subrange(0, i as int), pb) is None,
            decreases entries@.len() - i,
        {
            assert(ev.subrange(0, i as int + 1).drop_last() =~= ev.subrange(0, i as int));
            match &entries[i] {
                Some(entry) => {
                    if entry.path == target {
                        assert(find_entry(ev.subrange(0, i as int + 1), pb) == Some(i as int));
                        proof {
                            lemma_find_entry_prefix(ev, pb, i as int + 1);
                        }
                        let data_sector = entry.data_sector;
                        let len = entry.len;
                        let mut sector: [u8; SECTOR_SIZE] = [0u8; SECTOR_SIZE];
                        assert(ev[i as int] == entry_view(entries@[i as int]));
                        assert(find_entry(ev, pb) == Some(i as int));
                        assert(self.spec_directory() == Ok::<Seq<Option<EntryView>>, StorageError>(ev));
                        assert(ev[i as int]->Some_0.data_sector == data_sector);
                        assert(ev[i as int]->Some_0.len == len);
                        assert(len <= 512);
                        if self.device.read_sector(data_sector, &mut sector).is_err() {
                            return Err(StorageError::Io);
                        }
                        let sl: &[u8] = sector.as_slice();
                        let bytes = &sl[0..len];
                        return match utf8_to_string(bytes) {
                            Some(text) => Ok(Some(text)),
                            None => Err(StorageError::InvalidImage),
                        };
                    } else {
                        proof {
                            if encode_utf8(entry.path@) == pb {
                                lemma_encode_utf8_injective(entry.path@, path@);
                            }
                        }
                    }
                },
                None => {},
            }
            i = i + 1;
        }
        proof {
            assert(ev.subrange(0, i as int) =~= ev);
        }
        Ok(None)
    }
}

proof fn lemma_slot_bytes(disk: Seq<Seq<u8>>, index: int)
    requires
        disk.len() >= 3,
        disk[1].len() == SECTOR_SIZE,
        disk[2].len() == SECTOR_SIZE,
        0 <= index < MAX_FILES,
    ensures
        index < 8 ==> directory_bytes(disk).subrange(index * 64, index * 64 + 64) == disk[1].subrange(
            index * 64,
            index * 64 + 64,
        ),
        index >= 8 ==> directory_bytes(disk).subrange(index * 64, index * 64 + 64) == disk[2].subrange(
            (index - 8) * 64,
            (index - 8) * 64 + 64,
        ),
{
    let b = directory_bytes(disk);
    if index < 8 {
        assert(b.subrange(index * 64, index * 64 + 64) =~= disk[1].subrange(index * 64, index * 64 + 64));
    } else {
        assert(b.subrange(index * 64, index * 64 + 64) =~= disk[2].subrange(
            (index - 8) * 64,
            (index - 8) * 64 + 64,
        ));
    }
}

/// The first match in a prefix is the first match of the whole sequence.
proof fn lemma_find_entry_prefix(entries: Seq<Option<EntryView>>, path: Seq<u8>, k: int)
    requires
        0 <= k <= entries.len(),
        find_entry(entries.subrange(0, k), path) is Some,
    ensures
        find_entry(entries, path) == find_entry(entries.subrange(0, k), path),
    decreases entries.len() - k,
{
    if k < entries.len() {
        assert(entries.subrange(0, k + 1).drop_last() =~= entries.subrange(0, k));
        lemma_find_entry_prefix(entries, path, k + 1);
    } else {
        assert(entries.subrange(0, k) =~= entries);
    }
}


// ───────────────────────────── writing ─────────────────────────────

/// The directory area that stores `es`: the encodings of the slots, in order.
pub open spec fn encode_slots(es: Seq<Option<EntryView>>) -> Seq<u8>
    decreases es.len(),
{
    if es.len() == 0 {
        Seq::empty()
    } else {
        encode_slots(es.drop_last()) + encode_entry_spec(es.last())
    }
}

/// The data sector that stores `data`: the bytes, then zeros.
pub open spec fn data_sector_bytes(data: Seq<u8>) -> Seq<u8> {
    Seq::new(SECTOR_SIZE as nat, |i: int| if i < data.len() { data[i] } else { 0u8 })
}

/// Every occupied slot is sound.
pub open spec fn slots_sound(es: Seq<Option<EntryView>>) -> bool {
    forall|i: int| 0 <= i < es.len() ==> (#[trigger] es[i] matches Some(e) ==> entry_is_sound(e))
}

/// The disk after the directory `es` has been written over `disk`.
pub open spec fn with_directory(disk: Seq<Seq<u8>>, es: Seq<Option<EntryView>>) -> Seq<Seq<u8>> {
    disk.update(1, encode_slots(es).subrange(0, 512)).update(2, encode_slots(es).subrange(512, 1024)).update(
        0,
        header_sector(occupied_count(es)),
    )
}

proof fn lemma_encode_slots_len(es: Seq<Option<EntryView>>)
    ensures
        encode_slots(es).len() == DIR_ENTRY_SIZE * es.len(),
    decreases es.len(),
{
    if es.len() > 0 {
        lemma_encode_slots_len(es.drop_last());
    }
}

proof fn lemma_encode_slots_slot(es: Seq<Option<EntryView>>, k: int)
    requires
        0 <= k < es.len(),
    ensures
        encode_slots(es).subrange(k * 64, k * 64 + 64) == encode_entry_spec(es[k]),
    decreases es.len(),
{
    lemma_encode_slots_len(es.drop_last());
    let prefix = encode_slots(es.drop_last());
    if k == es.len() - 1 {
        assert(encode_slots(es).subrange(k * 64, k * 64 + 64) =~= encode_entry_spec(es[k]));
    } else {
        lemma_encode_slots_slot(es.drop_last(), k);
        assert(encode_slots(es).subrange(k * 64, k * 64 + 64) =~= prefix.subrange(k * 64, k * 64 + 64));
    }
}

proof fn lemma_decode_encoded_slots(es: Seq<Option<EntryView>>, n: nat)
    requires
        n <= es.len(),
        slots_sound(es),
    ensures
        decode_entries(encode_slots(es), n) == Ok::<Seq<Option<EntryView>>, StorageError>(es.take(n as int)),
    decreases n,
{
    if n > 0 {
        lemma_decode_encoded_slots(es, (n - 1) as nat);
        lemma_encode_slots_slot(es, n - 1);
        law_entry_round_trip(es[n - 1]);
        assert(es.take(n - 1).push(es[n - 1]) =~= es.take(n as int));
    } else {
        assert(es.take(0) =~= Seq::<Option<EntryView>>::empty());
    }
}

/// After writing a sound 16-slot directory to a mounted disk, the directory reads back.
proof fn lemma_directory_round_trip(disk: Seq<Seq<u8>>, es: Seq<Option<EntryView>>)
    requires
        disk.len() >= 3,
        es.len() == MAX_FILES,
        slots_sound(es),
    ensures
        directory_result(true, with_directory(disk, es)) == Ok::<Seq<Option<EntryView>>, StorageError>(es),
{
    let nd = with_directory(disk, es);
    lemma_encode_slots_len(es);
    lemma_occupied_count_bound(es);
    lemma_header_round_trip(nd, occupied_count(es));
    assert(directory_bytes(nd) =~= encode_slots(es));
    lemma_decode_encoded_slots(es, MAX_FILES as nat);
    assert(es.take(16) =~= es);
}

/// Whether a slot holds `path`.
pub open spec fn slot_holds(e: Option<EntryView>, path: Seq<u8>) -> bool {
    match e {
        Some(f) => f.path == path,
        None => false,
    }
}

proof fn lemma_find_entry_bounds(es: Seq<Option<EntryView>>, path: Seq<u8>)
    ensures
        match find_entry(es, path) {
            Some(i) => 0 <= i < es.len() && slot_holds(es[i], path)
                && forall|j: int| 0 <= j < i ==> !slot_holds(#[trigger] es[j], path),
            None => forall|j: int| 0 <= j < es.len() ==> !slot_holds(#[trigger] es[j], path),
        },
    decreases es.len(),
{
    if es.len() > 0 {
        lemma_find_entry_bounds(es.drop_last(), path);
        let d = es.drop_last();
        assert forall|j: int| 0 <= j < d.len() implies d[j] == es[j] by {}
    }
}

proof fn lemma_find_free_bounds(es: Seq<Option<EntryView>>)
    ensures
        match find_free(es) {
            Some(i) => 0 <= i < es.len() && es[i] is None && forall|j: int| 0 <= j < i ==> #[trigger] es[j] is Some,
            None => forall|j: int| 0 <= j < es.len() ==> #[trigger] es[j] is Some,
        },
    decreases es.len(),
{
    if es.len() > 0 {
        lemma_find_free_bounds(es.drop_last());
        let d = es.drop_last();
        assert forall|j: int| 0 <= j < d.len() implies d[j] == es[j] by {}
    }
}

/// `find_entry` is characterised by the slot it returns being the first match.
proof fn lemma_find_entry_from_bounds(es: Seq<Option<EntryView>>, path: Seq<u8>, r: Option<int>)
    requires
        match r {
            Some(i) => 0 <= i < es.len() && slot_holds(es[i], path)
                && forall|j: int| 0 <= j < i ==> !slot_holds(#[trigger] es[j], path),
            None => forall|j: int| 0 <= j < es.len() ==> !slot_holds(#[trigger] es[j], path),
        },
    ensures
        find_entry(es, path) == r,
{
    lemma_find_entry_bounds(es, path);
    match (find_entry(es, path), r) {
        (Some(a), Some(b)) => {
            if a < b {
                assert(slot_holds(es[a], path));
            } else if b < a {
                assert(slot_holds(es[b], path));
            }
        },
        (Some(a), None) => {
            assert(slot_holds(es[a], path));
        },
        (None, Some(b)) => {
            assert(slot_holds(es[b], path));
        },
        (None, None) => {},
    }
}

/// Slot for `path` and the sector its contents go to, when a write of `path` succeeds.
pub open spec fn write_slot(es: Seq<Option<EntryView>>, path: Seq<u8>) -> (int, nat) {
    match find_entry(es, path) {
        Some(i) => (i, es[i]->Some_0.data_sector),
        None => {
            let i = find_free(es)->Some_0;
            (i, (DATA_START_SECTOR + i) as nat)
        },
    }
}

/// What writing `data` to `path` returns.
pub open spec fn write_outcome(
    mounted: bool,
    disk: Seq<Seq<u8>>,
    path: Seq<u8>,
    data: Seq<u8>,
    overwrite: bool,
) -> Result<(), StorageError> {
    if !path_is_valid(path) {
        Err(StorageError::InvalidPath)
    } else if data.len() > MAX_FILE_SIZE {
        Err(StorageError::FileTooLarge)
    } else {
        match directory_result(mounted, disk) {
            Err(e) => Err(e),
            Ok(es) => match find_entry(es, path) {
                Some(i) => if !overwrite {
                    Err(StorageError::AlreadyExists)
                } else if es[i]->Some_0.data_sector >= disk.len() {
                    Err(StorageError::Io)
                } else {
                    Ok(())
                },
                None => match find_free(es) {
                    None => Err(StorageError::NoSpace),
                    Some(i) => if DATA_START_SECTOR + i >= disk.len() {
                        Err(StorageError::NoSpace)
                    } else {
                        Ok(())
                    },
                },
            },
        }
    }
}

/// The directory after a successful write of `data` to `path`.
pub open spec fn written_directory(es: Seq<Option<EntryView>>, path: Seq<u8>, data: Seq<u8>) -> Seq<
    Option<EntryView>,
> {
    let (k, ds) = write_slot(es, path);
    es.update(k, Some(EntryView { path, len: data.len(), data_sector: ds }))
}

/// The disk after a successful write of `data` to `path`.
pub open spec fn written_disk(disk: Seq<Seq<u8>>, es: Seq<Option<EntryView>>, path: Seq<u8>, data: Seq<u8>) -> Seq<Seq<u8>> {
    let (k, ds) = write_slot(es, path);
    with_directory(disk.update(ds as int, data_sector_bytes(data)), written_directory(es, path, data))
}

/// What deleting `path` returns.
pub open spec fn delete_outcome(mounted: bool, disk: Seq<Seq<u8>>, path: Seq<u8>) -> Result<(), StorageError> {
    if !path_is_valid(path) {
        Err(StorageError::InvalidPath)
    } else {
        match directory_result(mounted, disk) {
            Err(e) => Err(e),
            Ok(es) => match find_entry(es, path) {
                None => Err(StorageError::NotFound),
                Some(i) => if es[i]->Some_0.data_sector >= disk.len() {
                    Err(StorageError::Io)
                } else {
                    Ok(())
                },
            },
        }
    }
}

/// The disk after a successful delete of `path`.
pub open spec fn deleted_disk(disk: Seq<Seq<u8>>, es: Seq<Option<EntryView>>, path: Seq<u8>) -> Seq<Seq<u8>> {
    let i = find_entry(es, path)->Some_0;
    with_directory(disk.update(es[i]->Some_0.data_sector as int, zero_sector()), es.update(i, None))
}

impl<D: BlockDevice> SimpleFs<D> {
    fn write_data_sector(&mut self, data_sector: usize, contents: &[u8]) -> (r: Result<(), StorageError>)
        requires
            contents@.len() <= SECTOR_SIZE,
        ensures
            final(self).mounted == old(self).mounted,
            data_sector < old(self).disk().len() ==> r == Ok::<(), StorageError>(()) && final(self).disk() == old(self).disk().update(
                data_sector as int,
                data_sector_bytes(contents@),
            ),
            data_sector >= old(self).disk().len() ==> r == Err::<(), StorageError>(StorageError::Io)
                && final(self).disk() == old(self).disk(),
    {
        let mut sector: [u8; SECTOR_SIZE] = [0u8; SECTOR_SIZE];
        let mut i: usize = 0;
        while i < contents.len()
            invariant
                i <= contents@.len(),
                contents@.len() <= SECTOR_SIZE,
                forall|j: int| 0 <= j < i ==> sector@[j] == contents@[j],
                forall|j: int| i <= j < SECTOR_SIZE ==> sector@[j] == 0u8,
            decreases contents@.len() - i,
        {
            sector[i] = contents[i];
            i = i + 1;
        }
        assert(sector@ =~= data_sector_bytes(contents@));
        self.device.write_sector(data_sector, &sector)
    }

    fn write_directory(&mut self, entries: &Vec<Option<DirectoryEntry>>) -> (r: Result<(), StorageError>)
        requires
            entries@.len() == MAX_FILES,
            slots_sound(entries_view(entries@)),
        ensures
            final(self).mounted == old(self).mounted,
            !old(self).mounted ==> r == Err::<(), StorageError>(StorageError::NotMounted) && final(self).disk()
                == old(self).disk(),
            old(self).mounted && old(self).disk().len() >= 3 ==> r == Ok::<(), StorageError>(()) && final(self).disk() == with_directory(
                old(self).disk(),
                entries_view(entries@),
            ),
    {
        if !self.mounted {
            return Err(StorageError::NotMounted);
        }
        let ghost es = entries_view(entries@);
        let mut dir: Vec<u8> = Vec::new();
        let mut count: usize = 0;
        let mut index: usize = 0;
        while index < entries.len()
            invariant
                index <= entries@.len(),
                entries@.len() == MAX_FILES,
                es == entries_view(entries@),
                slots_sound(es),
                dir@ == encode_slots(es.take(index as int)),
                count == occupied_count(es.take(index as int)),
                count <= index,
            decreases entries@.len() - index,
        {
            assert(es[index as int] == entry_view(entries@[index as int]));
            let enc = match encode_entry(&entries[index]) {
                Ok(b) => b,
                Err(e) => return Err(e),
            };
            let mut j: usize = 0;
            let ghost before = dir@;
            while j < DIR_ENTRY_SIZE
                invariant
                    j <= DIR_ENTRY_SIZE,
                    dir@ == before + enc@.take(j as int),
                decreases DIR_ENTRY_SIZE - j,
            {
                dir.push(enc[j]);
                assert(before + enc@.take(j + 1) =~= (before + enc@.take(j as int)).push(enc@[j as int]));
                j = j + 1;
            }
            assert(es.take(index + 1).drop_last() =~= es.take(index as int));
            assert(enc@.take(64) =~= enc@);
            if entries[index].is_some() {
                count = count + 1;
            }
            index = index + 1;
        }
        assert(es.take(16) =~= es);
        proof {
            lemma_encode_slots_len(es);
        }
        let mut s1: [u8; SECTOR_SIZE] = [0u8; SECTOR_SIZE];
        let mut s2: [u8; SECTOR_SIZE] = [0u8; SECTOR_SIZE];
        let mut j: usize = 0;
        while j < SECTOR_SIZE
            invariant
                j <= SECTOR_SIZE,
                dir@.len() == 2 * SECTOR_SIZE,
                forall|t: int| 0 <= t < j ==> s1@[t] == dir@[t] && s2@[t] == dir@[t + 512],
            decreases SECTOR_SIZE - j,
        {
            s1[j] = dir[j];
            s2[j] = dir[j + SECTOR_SIZE];
            j = j + 1;
        }
        assert(s1@ =~= encode_slots(es).subrange(0, 512));
        assert(s2@ =~= encode_slots(es).subrange(512, 1024));
        match self.device.write_sector(DIRECTORY_START_SECTOR, &s1) {
            Ok(()) => {},
            Err(e) => return Err(e),
        }
        match self.device.write_sector(DIRECTORY_START_SECTOR + 1, &s2) {
            Ok(()) => {},
            Err(e) => return Err(e),
        }
        proof {
            lemma_occupied_count_bound(es);
        }
        self.write_header(count)
    }
}


fn find_path_index(entries: &Vec<Option<DirectoryEntry>>, target: &String) -> (r: Option<usize>)
    ensures
        match r {
            Some(i) => find_entry(entries_view(entries@), encode_utf8(target@)) == Some(i as int),
            None => find_entry(entries_view(entries@), encode_utf8(target@)) is None,
        },
{
    let ghost ev = entries_view(entries@);
    let ghost pb = encode_utf8(target@);
    let mut i: usize = 0;
    while i < entries.len()
        invariant
            i <= entries@.len(),
            ev == entries_view(entries@),
            pb == encode_utf8(target@),
            find_entry(ev.subrange(0, i as int), pb) is None,
        decreases entries@.len() - i,
    {
        assert(ev.subrange(0, i as int + 1).drop_last() =~= ev.subrange(0, i as int));
        assert(ev[i as int] == entry_view(entries@[i as int]));
        match &entries[i] {
            Some(entry) => {
                if entry.path == *target {
                    assert(find_entry(ev.subrange(0, i as int + 1), pb) == Some(i as int));
                    proof {
                        lemma_find_entry_prefix(ev, pb, i as int + 1);
                    }
                    return Some(i);
                } else {
                    proof {
                        if encode_utf8(entry.path@) == pb {
                            lemma_encode_utf8_injective(entry.path@, target@);
                        }
                    }
                }
            },
            None => {},
        }
        i = i + 1;
    }
    assert(ev.subrange(0, i as int) =~= ev);
    None
}

fn find_free_index(entries: &Vec<Option<DirectoryEntry>>) -> (r: Option<usize>)
    ensures
        match r {
            Some(i) => find_free(entries_view(entries@)) == Some(i as int),
            None => find_free(entries_view(entries@)) is None,
        },
{
    let ghost ev = entries_view(entries@);
    let mut i: usize = 0;
    while i < entries.len()
        invariant
            i <= entries@.len(),
            ev == entries_view(entries@),
            find_free(ev.subrange(0, i as int)) is None,
        decreases entries@.len() - i,
    {
        assert(ev.subrange(0, i as int + 1).drop_last() =~= ev.subrange(0, i as int));
        assert(ev[i as int] == entry_view(entries@[i as int]));
        if entries[i].is_none() {
            assert(find_free(ev.subrange(0, i as int + 1)) == Some(i as int));
            proof {
                lemma_find_free_prefix(ev, i as int + 1);
            }
            return Some(i);
        }
        i = i + 1;
    }
    assert(ev.subrange(0, i as int) =~= ev);
    None
}

proof fn lemma_find_free_prefix(entries: Seq<Option<EntryView>>, k: int)
    requires
        0 <= k <= entries.len(),
        find_free(entries.subrange(0, k)) is Some,
    ensures
        find_free(entries) == find_free(entries.subrange(0, k)),
    decreases entries.len() - k,
{
    if k < entries.len() {
        assert(entries.subrange(0, k + 1).drop_last() =~= entries.subrange(0, k));
        lemma_find_free_prefix(entries, k + 1);
    } else {
        assert(entries.subrange(0, k) =~= entries);
    }
}

impl<D: BlockDevice> SimpleFs<D> {
    fn write_file_internal(&mut self, path: &str, contents: &str, overwrite: bool) -> (r: Result<
        (),
        StorageError,
    >)
        ensures
            r == write_outcome(
                old(self).mounted(),
                old(self).disk(),
                encode_utf8(path@),
                encode_utf8(contents@),
                overwrite,
            ),
            final(self).mounted() == old(self).mounted(),
            r is Ok ==> final(self).disk() == written_disk(
                old(self).disk(),
                old(self).spec_directory()->Ok_0,
                encode_utf8(path@),
                encode_utf8(contents@),
            ),
            r is Err ==> final(self).disk() == old(self).disk(),
    {
        if validate_path(path).is_err() {
            return Err(StorageError::InvalidPath);
        }
        let bytes = contents.as_bytes();
        if bytes.len() > MAX_FILE_SIZE {
            return Err(StorageError::FileTooLarge);
        }
        let mut entries = match self.read_directory() {
            Ok(es) => es,
            Err(e) => return Err(e),
        };
        let ghost es = entries_view(entries@);
        let ghost pb = encode_utf8(path@);
        proof {
            lemma_decode_entries_sound(directory_bytes(self.disk()), MAX_FILES as nat);
            lemma_decode_entries_len(directory_bytes(self.disk()), MAX_FILES as nat);
            encode_utf8_valid_utf8(path@);
        }
        assert(self.mounted && self.disk().len() >= 3);
        let target = path.to_owned();
        let found = find_path_index(&entries, &target);
        proof {
            lemma_find_entry_bounds(es, pb);
        }
        match found {
            Some(index) => {
                if !overwrite {
                    return Err(StorageError::AlreadyExists);
                }
                assert(es[index as int] == entry_view(entries@[index as int]));
                let data_sector = match &entries[index] {
                    Some(entry) => entry.data_sector,
                    None => return Err(StorageError::InvalidImage),
                };
                match self.write_data_sector(data_sector, bytes) {
                    Ok(()) => {},
                    Err(e) => return Err(e),
                }
                entries.set(index, Some(DirectoryEntry { path: target, len: bytes.len(), data_sector }));
                assert(entries_view(entries@) =~= written_directory(es, pb, bytes@));
                assert(self.mounted && self.disk().len() >= 3);
                assert(old(self).spec_directory() == Ok::<Seq<Option<EntryView>>, StorageError>(es));
                assert(write_outcome(old(self).mounted(), old(self).disk(), pb, bytes@, overwrite) is Ok);
                self.write_directory(&entries)
            },
            None => {
                let index = match find_free_index(&entries) {
                    Some(i) => i,
                    None => return Err(StorageError::NoSpace),
                };
                proof {
                    lemma_find_free_bounds(es);
                }
                let data_sector = DATA_START_SECTOR + index;
                if data_sector >= self.device.sector_count() {
                    return Err(StorageError::NoSpace);
                }
                match self.write_data_sector(data_sector, bytes) {
                    Ok(()) => {},
                    Err(e) => return Err(e),
                }
                entries.set(index, Some(DirectoryEntry { path: target, len: bytes.len(), data_sector }));
                assert(entries_view(entries@) =~= written_directory(es, pb, bytes@));
                assert(self.mounted && self.disk().len() >= 3);
                assert(old(self).spec_directory() == Ok::<Seq<Option<EntryView>>, StorageError>(es));
                assert(write_outcome(old(self).mounted(), old(self).disk(), pb, bytes@, overwrite) is Ok);
                self.write_directory(&entries)
            },
        }
    }

    /// Creates an empty file; fails with `AlreadyExists` when the path is taken.
    pub fn create_file(&mut self, path: &str) -> (r: Result<(), StorageError>)
        ensures
            r == write_outcome(old(self).mounted(), old(self).disk(), encode_utf8(path@), Seq::empty(), false),
            final(self).mounted() == old(self).mounted(),
            r is Ok ==> final(self).disk() == written_disk(
                old(self).disk(),
                old(self).spec_directory()->Ok_0,
                encode_utf8(path@),
                Seq::empty(),
            ),
            r is Err ==> final(self).disk() == old(self).disk(),
    {
        let empty = "";
        proof {
            reveal_strlit("");
            assert(encode_utf8(empty@) =~= Seq::<u8>::empty());
        }
        self.write_file_internal(path, empty, false)
    }

    /// Writes `contents` to `path`, creating the file or replacing its contents.
    pub fn write_file(&mut self, path: &str, contents: &str) -> (r: Result<(), StorageError>)
        ensures
            r == write_outcome(
                old(self).mounted(),
                old(self).disk(),
                encode_utf8(path@),
                encode_utf8(contents@),
                true,
            ),
            final(self).mounted() == old(self).mounted(),
            r is Ok ==> final(self).disk() == written_disk(
                old(self).disk(),
                old(self).spec_directory()->Ok_0,
                encode_utf8(path@),
                encode_utf8(contents@),
            ),
            r is Err ==> final(self).disk() == old(self).disk(),
    {
        self.write_file_internal(path, contents, true)
    }

    /// Removes a file and zeroes its data sector.
    pub fn delete_file(&mut self, path: &str) -> (r: Result<(), StorageError>)
        ensures
            r == delete_outcome(old(self).mounted(), old(self).disk(), encode_utf8(path@)),
            final(self).mounted() == old(self).mounted(),
            r is Ok ==> final(self).disk() == deleted_disk(
                old(self).disk(),
                old(self).spec_directory()->Ok_0,
                encode_utf8(path@),
            ),
            r is Err ==> final(self).disk() == old(self).disk(),
    {
        if validate_path(path).is_err() {
            return Err(StorageError::InvalidPath);
        }
        let mut entries = match self.read_directory() {
            Ok(es) => es,
            Err(e) => return Err(e),
        };
        let ghost es = entries_view(entries@);
        proof {
            lemma_decode_entries_sound(directory_bytes(self.disk()), MAX_FILES as nat);
            lemma_decode_entries_len(directory_bytes(self.disk()), MAX_FILES as nat);
        }
        assert(self.mounted && self.disk().len() >= 3);
        let target = path.to_owned();
        let found = find_path_index(&entries, &target);
        proof {
            lemma_find_entry_bounds(es, encode_utf8(path@));
        }
        let index = match found {
            Some(i) => i,
            None => return Err(StorageError::NotFound),
        };
        assert(es[index as int] == entry_view(entries@[index as int]));
        let data_sector = match &entries[index] {
            Some(entry) => entry.data_sector,
            None => return Err(StorageError::NotFound),
        };
        let zero: [u8; SECTOR_SIZE] = [0u8; SECTOR_SIZE];
        assert(zero@ =~= zero_sector());
        match self.device.write_sector(data_sector, &zero) {
            Ok(()) => {},
            Err(e) => return Err(e),
        }
        entries.set(index, None);
        assert(entries_view(entries@) =~= es.update(index as int, None));
        assert(self.mounted && self.disk().len() >= 3);
        self.write_directory(&entries)
    }

    /// Paths of all files, in directory-slot order.
    pub fn list_files(&self) -> (r: Result<Vec<String>, StorageError>)
        ensures
            match self.spec_directory() {
                Ok(es) => r is Ok && r->Ok_0@.map_values(|s: String| encode_utf8(s@)) == listed_paths(es),
                Err(e) => r == Err::<Vec<String>, StorageError>(e),
            },
    {
        let entries = match self.read_directory() {
            Ok(es) => es,
            Err(e) => return Err(e),
        };
        let ghost ev = entries_view(entries@);
        let mut out: Vec<String> = Vec::new();
        let mut i: usize = 0;
        while i < entries.len()
            invariant
                i <= entries@.len(),
                ev == entries_view(entries@),
                out@.map_values(|s: String| encode_utf8(s@)) == listed_paths(ev.subrange(0, i as int)),
            decreases entries@.len() - i,
        {
            assert(ev.subrange(0, i as int + 1).drop_last() =~= ev.subrange(0, i as int));
            assert(ev[i as int] == entry_view(entries@[i as int]));
            match &entries[i] {
                Some(entry) => {
                    out.push(entry.path.clone());
                },
                None => {},
            }
            assert(out@.map_values(|s: String| encode_utf8(s@)) =~= listed_paths(
                ev.subrange(0, i as int + 1),
            ));
            i = i + 1;
        }
        assert(ev.subrange(0, i as int) =~= ev);
        Ok(out)
    }

    /// Mount state and capacity figures.
    pub fn info(&self) -> (r: Result<StorageInfo, StorageError>)
        ensures
            !self.mounted() ==> r == Ok::<StorageInfo, StorageError>(
                StorageInfo {
                    mounted: false,
                    file_count: 0,
                    max_files: MAX_FILES,
                    free_slots: MAX_FILES,
                    capacity_bytes: CAPACITY_BYTES,
                    max_file_size: MAX_FILE_SIZE,
                },
            ),
            self.mounted() ==> match self.spec_directory() {
                Ok(es) => r == Ok::<StorageInfo, StorageError>(
                    StorageInfo {
                        mounted: true,
                        file_count: occupied_count(es) as usize,
                        max_files: MAX_FILES,
                        free_slots: (MAX_FILES - occupied_count(es)) as usize,
                        capacity_bytes: CAPACITY_BYTES,
                        max_file_size: MAX_FILE_SIZE,
                    },
                ),
                Err(e) => r == Err::<StorageInfo, StorageError>(e),
            },
    {
        if !self.mounted {
            return Ok(
                StorageInfo {
                    mounted: false,
                    file_count: 0,
                    max_files: MAX_FILES,
                    free_slots: MAX_FILES,
                    capacity_bytes: CAPACITY_BYTES,
                    max_file_size: MAX_FILE_SIZE,
                },
            );
        }
        let entries = match self.read_directory() {
            Ok(es) => es,
            Err(e) => return Err(e),
        };
        let ghost ev = entries_view(entries@);
        proof {
            lemma_decode_entries_len(directory_bytes(self.disk()), MAX_FILES as nat);
        }
        let mut count: usize = 0;
        let mut i: usize = 0;
        while i < entries.len()
            invariant
                i <= entries@.len(),
                entries@.len() == MAX_FILES,
                ev == entries_view(entries@),
                count == occupied_count(ev.subrange(0, i as int)),
                count <= i,
            decreases entries@.len() - i,
        {
            assert(ev.subrange(0, i as int + 1).drop_last() =~= ev.subrange(0, i as int));
            assert(ev[i as int] == entry_view(entries@[i as int]));
            if entries[i].is_some() {
                count = count + 1;
            }
            i = i + 1;
        }
        assert(ev.subrange(0, i as int) =~= ev);
        Ok(
            StorageInfo {
                mounted: true,
                file_count: count,
                max_files: MAX_FILES,
                free_slots: MAX_FILES - count,
                capacity_bytes: CAPACITY_BYTES,
                max_file_size: MAX_FILE_SIZE,
            },
        )
    }
}


// ───────────────────────────── laws ─────────────────────────────

/// No two occupied slots hold the same path.
pub open spec fn paths_unique(es: Seq<Option<EntryView>>) -> bool {
    forall|i: int, j: int|
        0 <= i < es.len() && 0 <= j < es.len() && i != j && #[trigger] es[i] is Some
            && #[trigger] es[j] is Some ==> es[i]->Some_0.path != es[j]->Some_0.path
}

/// Every occupied slot keeps its contents in the data sector of its own index.
pub open spec fn slots_own_sectors(es: Seq<Option<EntryView>>) -> bool {
    forall|i: int| 0 <= i < es.len() ==> (#[trigger] es[i] matches Some(e) ==> e.data_sector == DATA_START_SECTOR + i)
}

/// The shape of every directory this filesystem writes itself.
pub open spec fn directory_wf(es: Seq<Option<EntryView>>) -> bool {
    paths_unique(es) && slots_own_sectors(es)
}

proof fn lemma_write_slot(es: Seq<Option<EntryView>>, path: Seq<u8>)
    requires
        es.len() == MAX_FILES,
        find_entry(es, path) is Some || find_free(es) is Some,
    ensures
        ({
            let (k, ds) = write_slot(es, path);
            let nes = written_directory(es, path, Seq::empty());
            &&& 0 <= k < es.len()
            &&& find_entry(es, path) is None ==> es[k] is None && ds == DATA_START_SECTOR + k
            &&& find_entry(es, path) matches Some(i) ==> i == k && slot_holds(es[k], path) && ds == es[k]->Some_0.data_sector
            &&& forall|j: int| 0 <= j < k ==> !slot_holds(#[trigger] es[j], path)
        }),
{
    lemma_find_entry_bounds(es, path);
    lemma_find_free_bounds(es);
    if find_entry(es, path) is None {
        let k = find_free(es)->Some_0;
        assert forall|j: int| 0 <= j < k implies !slot_holds(#[trigger] es[j], path) by {}
    }
}

/// Read-your-write: after a successful write of `data` to `path`, reading `path` gives `data`.
pub proof fn law_read_after_write(disk: Seq<Seq<u8>>, path: Seq<u8>, data: Seq<u8>, overwrite: bool)
    requires
        write_outcome(true, disk, path, data, overwrite) is Ok,
        valid_utf8(path),
        valid_utf8(data),
    ensures
        read_file_result(true, written_disk(disk, directory_result(true, disk)->Ok_0, path, data), path)
            == Ok::<Option<Seq<u8>>, StorageError>(Some(data)),
{
    let es = directory_result(true, disk)->Ok_0;
    lemma_decode_entries_sound(directory_bytes(disk), MAX_FILES as nat);
    lemma_write_slot(es, path);
    let (k, ds) = write_slot(es, path);
    let nes = written_directory(es, path, data);
    let nd = disk.update(ds as int, data_sector_bytes(data));
    assert(slots_sound(nes));
    lemma_directory_round_trip(nd, nes);
    let wd = written_disk(disk, es, path, data);
    assert(forall|j: int| 0 <= j < k ==> nes[j] == es[j]);
    lemma_find_entry_from_bounds(nes, path, Some(k));
    assert(wd[ds as int] == data_sector_bytes(data));
    assert(data_sector_bytes(data).subrange(0, data.len() as int) =~= data);
}

/// A write to `path` leaves what every other path reads unchanged.
pub proof fn law_write_keeps_other_files(
    disk: Seq<Seq<u8>>,
    path: Seq<u8>,
    data: Seq<u8>,
    overwrite: bool,
    other: Seq<u8>,
)
    requires
        write_outcome(true, disk, path, data, overwrite) is Ok,
        valid_utf8(path),
        slots_own_sectors(directory_result(true, disk)->Ok_0),
        other != path,
    ensures
        read_file_result(true, written_disk(disk, directory_result(true, disk)->Ok_0, path, data), other)
            == read_file_result(true, disk, other),
{
    let es = directory_result(true, disk)->Ok_0;
    lemma_decode_entries_sound(directory_bytes(disk), MAX_FILES as nat);
    lemma_write_slot(es, path);
    let (k, ds) = write_slot(es, path);
    let nes = written_directory(es, path, data);
    let nd = disk.update(ds as int, data_sector_bytes(data));
    lemma_directory_round_trip(nd, nes);
    let wd = written_disk(disk, es, path, data);
    if path_is_valid(other) {
        assert forall|j: int| 0 <= j < es.len() implies slot_holds(#[trigger] nes[j], other) == slot_holds(
            es[j],
            other,
        ) by {}
        lemma_find_entry_bounds(es, other);
        let r = find_entry(es, other);
        match r {
            Some(i) => {
                assert(forall|j: int| 0 <= j < i ==> !slot_holds(#[trigger] nes[j], other) || slot_holds(es[j], other));
            },
            None => {},
        }
        lemma_find_entry_from_bounds(nes, other, r);
        if let Some(i) = r {
            assert(i != k);
            assert(nes[i] == es[i]);
            if es[i]->Some_0.data_sector < disk.len() {
                assert(wd[es[i]->Some_0.data_sector as int] == disk[es[i]->Some_0.data_sector as int]);
            }
        }
    }
}

/// A write keeps the directory in the shape the filesystem maintains.
pub proof fn law_write_preserves_wf(disk: Seq<Seq<u8>>, path: Seq<u8>, data: Seq<u8>, overwrite: bool)
    requires
        write_outcome(true, disk, path, data, overwrite) is Ok,
        valid_utf8(path),
        directory_wf(directory_result(true, disk)->Ok_0),
    ensures
        directory_result(true, written_disk(disk, directory_result(true, disk)->Ok_0, path, data))
            == Ok::<Seq<Option<EntryView>>, StorageError>(
            written_directory(directory_result(true, disk)->Ok_0, path, data),
        ),
        directory_wf(written_directory(directory_result(true, disk)->Ok_0, path, data)),
{
    let es = directory_result(true, disk)->Ok_0;
    lemma_decode_entries_sound(directory_bytes(disk), MAX_FILES as nat);
    lemma_write_slot(es, path);
    let (k, ds) = write_slot(es, path);
    let nes = written_directory(es, path, data);
    let nd = disk.update(ds as int, data_sector_bytes(data));
    lemma_directory_round_trip(nd, nes);
    lemma_find_entry_bounds(es, path);
    assert forall|i: int, j: int|
        0 <= i < nes.len() && 0 <= j < nes.len() && i != j && #[trigger] nes[i] is Some
            && #[trigger] nes[j] is Some implies nes[i]->Some_0.path != nes[j]->Some_0.path by {
        if i == k {
            assert(!slot_holds(es[j], path) || find_entry(es, path) == Some(k));
        } else if j == k {
            assert(!slot_holds(es[i], path) || find_entry(es, path) == Some(k));
        }
    }
}

/// A path is listed exactly when some slot holds it.
proof fn lemma_listed_contains(es: Seq<Option<EntryView>>, q: Seq<u8>)
    ensures
        listed_paths(es).contains(q) <==> exists|i: int| 0 <= i < es.len() && slot_holds(#[trigger] es[i], q),
    decreases es.len(),
{
    if es.len() > 0 {
        let d = es.drop_last();
        lemma_listed_contains(d, q);
        let last = es.len() - 1;
        if listed_paths(d).contains(q) {
            let i = choose|i: int| 0 <= i < d.len() && slot_holds(#[trigger] d[i], q);
            assert(es[i] == d[i]);
            if es.last() is Some {
                let k = choose|k: int| 0 <= k < listed_paths(d).len() && listed_paths(d)[k] == q;
                assert(listed_paths(es)[k] == q);
            }
        }
        if exists|i: int| 0 <= i < es.len() && slot_holds(#[trigger] es[i], q) {
            let i = choose|i: int| 0 <= i < es.len() && slot_holds(#[trigger] es[i], q);
            if i < last {
                assert(d[i] == es[i]);
                let k = choose|k: int| 0 <= k < listed_paths(d).len() && listed_paths(d)[k] == q;
                if es.last() is Some {
                    assert(listed_paths(es)[k] == q);
                }
            } else {
                assert(es.last() == es[i]);
                assert(listed_paths(es)[listed_paths(d).len() as int] == q);
            }
        } else {
            if listed_paths(es).contains(q) {
                let k = choose|k: int| 0 <= k < listed_paths(es).len() && listed_paths(es)[k] == q;
                if es.last() is Some && k == listed_paths(d).len() {
                    assert(slot_holds(es[last], q));
                } else {
                    assert(listed_paths(d)[k] == q);
                    let i = choose|i: int| 0 <= i < d.len() && slot_holds(#[trigger] d[i], q);
                    assert(es[i] == d[i]);
                }
            }
        }
    }
}

/// A directory without duplicate paths lists each path once.
proof fn lemma_listed_unique(es: Seq<Option<EntryView>>)
    requires
        paths_unique(es),
    ensures
        listed_paths(es).no_duplicates(),
    decreases es.len(),
{
    if es.len() > 0 {
        let d = es.drop_last();
        let last = es.len() - 1;
        assert(paths_unique(d)) by {
            assert forall|i: int, j: int|
                0 <= i < d.len() && 0 <= j < d.len() && i != j && #[trigger] d[i] is Some && #[trigger] d[j] is Some
                    implies d[i]->Some_0.path != d[j]->Some_0.path by {
                assert(d[i] == es[i] && d[j] == es[j]);
            }
        }
        lemma_listed_unique(d);
        if let Some(e) = es.last() {
            lemma_listed_contains(d, e.path);
            if listed_paths(d).contains(e.path) {
                let i = choose|i: int| 0 <= i < d.len() && slot_holds(#[trigger] d[i], e.path);
                assert(d[i] == es[i]);
                assert(es[last] is Some && es[i] is Some);
            }
            let l = listed_paths(es);
            assert forall|a: int, b: int| 0 <= a < l.len() && 0 <= b < l.len() && a != b implies l[a] != l[b] by {
                if a < l.len() - 1 && b < l.len() - 1 {
                    assert(l[a] == listed_paths(d)[a] && l[b] == listed_paths(d)[b]);
                } else if a < l.len() - 1 {
                    assert(l[a] == listed_paths(d)[a]);
                } else {
                    assert(l[b] == listed_paths(d)[b]);
                }
            }
        }
    }
}

/// After a successful write to `path`, the filesystem lists the paths it listed
/// before together with `path`, each once.
pub proof fn law_listing_after_write(disk: Seq<Seq<u8>>, path: Seq<u8>, data: Seq<u8>, overwrite: bool)
    requires
        write_outcome(true, disk, path, data, overwrite) is Ok,
        valid_utf8(path),
        directory_wf(directory_result(true, disk)->Ok_0),
    ensures
        ({
            let es = directory_result(true, disk)->Ok_0;
            let after = directory_result(true, written_disk(disk, es, path, data));
            &&& after is Ok
            &&& listed_paths(after->Ok_0).to_set() == listed_paths(es).to_set().insert(path)
            &&& listed_paths(after->Ok_0).no_duplicates()
        }),
{
    let es = directory_result(true, disk)->Ok_0;
    law_write_preserves_wf(disk, path, data, overwrite);
    lemma_decode_entries_sound(directory_bytes(disk), MAX_FILES as nat);
    lemma_write_slot(es, path);
    let (k, ds) = write_slot(es, path);
    let nes = written_directory(es, path, data);
    lemma_listed_unique(nes);
    assert forall|q: Seq<u8>| listed_paths(nes).to_set().contains(q) <==> listed_paths(es).to_set().insert(path).contains(q) by {
        lemma_listed_contains(nes, q);
        lemma_listed_contains(es, q);
        if q == path {
            assert(slot_holds(nes[k], q));
        } else {
            if exists|i: int| 0 <= i < nes.len() && slot_holds(#[trigger] nes[i], q) {
                let i = choose|i: int| 0 <= i < nes.len() && slot_holds(#[trigger] nes[i], q);
                assert(i != k);
                assert(nes[i] == es[i]);
            }
            if exists|i: int| 0 <= i < es.len() && slot_holds(#[trigger] es[i], q) {
                let i = choose|i: int| 0 <= i < es.len() && slot_holds(#[trigger] es[i], q);
                if i == k {
                    assert(es[k] is None || slot_holds(es[k], path));
                }
                assert(i != k);
                assert(nes[i] == es[i]);
            }
        }
    }
    assert(listed_paths(nes).to_set() =~= listed_paths(es).to_set().insert(path));
}

/// Deleting `path` from a directory without duplicate paths leaves nothing to read at `path`.
pub proof fn law_read_after_delete(disk: Seq<Seq<u8>>, path: Seq<u8>)
    requires
        delete_outcome(true, disk, path) is Ok,
        paths_unique(directory_result(true, disk)->Ok_0),
    ensures
        read_file_result(true, deleted_disk(disk, directory_result(true, disk)->Ok_0, path), path)
            == Ok::<Option<Seq<u8>>, StorageError>(None),
{
    let es = directory_result(true, disk)->Ok_0;
    lemma_decode_entries_sound(directory_bytes(disk), MAX_FILES as nat);
    lemma_find_entry_bounds(es, path);
    let i = find_entry(es, path)->Some_0;
    let nes = es.update(i, None);
    let nd = disk.update(es[i]->Some_0.data_sector as int, zero_sector());
    lemma_directory_round_trip(nd, nes);
    assert forall|j: int| 0 <= j < nes.len() implies !slot_holds(#[trigger] nes[j], path) by {
        if j != i && slot_holds(es[j], path) {
            assert(es[j] is Some && es[i] is Some);
        }
    }
    lemma_find_entry_from_bounds(nes, path, None);
}

/// Deleting `path` leaves what every other path reads unchanged.
pub proof fn law_delete_keeps_other_files(disk: Seq<Seq<u8>>, path: Seq<u8>, other: Seq<u8>)
    requires
        delete_outcome(true, disk, path) is Ok,
        slots_own_sectors(directory_result(true, disk)->Ok_0),
        other != path,
    ensures
        read_file_result(true, deleted_disk(disk, directory_result(true, disk)->Ok_0, path), other)
            == read_file_result(true, disk, other),
{
    let es = directory_result(true, disk)->Ok_0;
    lemma_decode_entries_sound(directory_bytes(disk), MAX_FILES as nat);
    lemma_find_entry_bounds(es, path);
    let i = find_entry(es, path)->Some_0;
    let nes = es.update(i, None);
    let nd = disk.update(es[i]->Some_0.data_sector as int, zero_sector());
    lemma_directory_round_trip(nd, nes);
    let dd = deleted_disk(disk, es, path);
    if path_is_valid(other) {
        assert forall|j: int| 0 <= j < es.len() implies slot_holds(#[trigger] nes[j], other) == slot_holds(
            es[j],
            other,
        ) by {}
        lemma_find_entry_bounds(es, other);
        let r = find_entry(es, other);
        lemma_find_entry_from_bounds(nes, other, r);
        if let Some(j) = r {
            assert(j != i);
            assert(nes[j] == es[j]);
            if es[j]->Some_0.data_sector < disk.len() {
                assert(dd[es[j]->Some_0.data_sector as int] == disk[es[j]->Some_0.data_sector as int]);
            }
        }
    }
}


// ─────────────────── kernel-wide storage operations ───────────────────
//
// The kernel keeps one filesystem over an in-memory device; these functions
// are the operations it exposes on it.

/// The filesystem the kernel boots with: unmounted, over a fresh device.
pub fn new_kernel_storage() -> (r: SimpleFs<MemoryBlockDevice>)
    ensures
        !r.mounted(),
        r.disk() == Seq::new(DEFAULT_SECTOR_COUNT as nat, |i: int| zero_sector()),
{
    SimpleFs::new(MemoryBlockDevice::new(DEFAULT_SECTOR_COUNT))
}

/// Mounts the existing image, formatting the device when it holds none, then seeds
/// the bootstrap files.
pub fn init(fs: &mut SimpleFs<MemoryBlockDevice>) -> (r: Result<(), StorageError>)
    ensures
        header_result(old(fs).disk()) matches Ok(c) && c <= MAX_FILES ==> final(fs).mounted()
            && (r, final(fs).disk()) == seeded(true, old(fs).disk(), 5),
        !(header_result(old(fs).disk()) matches Ok(c) && c <= MAX_FILES) && old(fs).disk().len() > 0
            ==> final(fs).mounted() && (r, final(fs).disk()) == seeded(
            true,
            formatted_disk(old(fs).disk().len()),
            5,
        ),
{
    if fs.mount().is_err() {
        let _ = fs.format();
    }
    seed_bootstrap_files(fs)
}

/// Formats the device and seeds the bootstrap files.
pub fn format(fs: &mut SimpleFs<MemoryBlockDevice>) -> (r: Result<(), StorageError>)
    ensures
        old(fs).disk().len() == 0 ==> r == Err::<(), StorageError>(StorageError::Io) && final(fs).disk()
            == old(fs).disk() && final(fs).mounted() == old(fs).mounted(),
        old(fs).disk().len() > 0 ==> final(fs).mounted() && (r, final(fs).disk()) == seeded(
            true,
            formatted_disk(old(fs).disk().len()),
            5,
        ),
{
    match fs.format() {
        Ok(()) => {},
        Err(e) => return Err(e),
    }
    seed_bootstrap_files(fs)
}

/// Unmounts and mounts the filesystem again.
pub fn remount(fs: &mut SimpleFs<MemoryBlockDevice>) -> (r: Result<(), StorageError>)
    ensures
        final(fs).disk() == old(fs).disk(),
        match header_result(old(fs).disk()) {
            Err(e) => r == Err::<(), StorageError>(e) && !final(fs).mounted(),
            Ok(c) => if c > MAX_FILES {
                r == Err::<(), StorageError>(StorageError::InvalidImage) && !final(fs).mounted()
            } else {
                r is Ok && final(fs).mounted()
            },
        },
        old(fs).mounted() && r is Ok ==> forall|p: Seq<u8>| #[trigger] final(fs).spec_read_file(p) == old(fs).spec_read_file(p),
{
    fs.unmount();
    fs.mount()
}

pub fn unmount(fs: &mut SimpleFs<MemoryBlockDevice>)
    ensures
        final(fs).disk() == old(fs).disk(),
        !final(fs).mounted(),
{
    fs.unmount();
}

pub fn is_mounted(fs: &SimpleFs<MemoryBlockDevice>) -> (r: bool)
    ensures
        r == fs.mounted(),
{
    fs.is_mounted()
}

pub fn list_files(fs: &SimpleFs<MemoryBlockDevice>) -> (r: Result<Vec<String>, StorageError>)
    ensures
        match fs.spec_directory() {
            Ok(es) => r is Ok && r->Ok_0@.map_values(|s: String| encode_utf8(s@)) == listed_paths(es),
            Err(e) => r == Err::<Vec<String>, StorageError>(e),
        },
{
    fs.list_files()
}

pub fn read_file(fs: &SimpleFs<MemoryBlockDevice>, path: &str) -> (r: Result<Option<String>, StorageError>)
    ensures
        match fs.spec_read_file(encode_utf8(path@)) {
            Ok(Some(data)) => r matches Ok(Some(s)) && encode_utf8(s@) == data,
            Ok(None) => r == Ok::<Option<String>, StorageError>(None),
            Err(e) => r == Err::<Option<String>, StorageError>(e),
        },
{
    fs.read_file(path)
}

pub fn create_file(fs: &mut SimpleFs<MemoryBlockDevice>, path: &str) -> (r: Result<(), StorageError>)
    ensures
        r == write_outcome(old(fs).mounted(), old(fs).disk(), encode_utf8(path@), Seq::empty(), false),
        final(fs).mounted() == old(fs).mounted(),
        r is Ok ==> final(fs).disk() == written_disk(
            old(fs).disk(),
            old(fs).spec_directory()->Ok_0,
            encode_utf8(path@),
            Seq::empty(),
        ),
        r is Err ==> final(fs).disk() == old(fs).disk(),
{
    fs.create_file(path)
}

pub fn write_file(fs: &mut SimpleFs<MemoryBlockDevice>, path: &str, contents: &str) -> (r: Result<
    (),
    StorageError,
>)
    ensures
        r == write_outcome(
            old(fs).mounted(),
            old(fs).disk(),
            encode_utf8(path@),
            encode_utf8(contents@),
            true,
        ),
        final(fs).mounted() == old(fs).mounted(),
        r is Ok ==> final(fs).disk() == written_disk(
            old(fs).disk(),
            old(fs).spec_directory()->Ok_0,
            encode_utf8(path@),
            encode_utf8(contents@),
        ),
        r is Err ==> final(fs).disk() == old(fs).disk(),
{
    fs.write_file(path, contents)
}

pub fn delete_file(fs: &mut SimpleFs<MemoryBlockDevice>, path: &str) -> (r: Result<(), StorageError>)
    ensures
        r == delete_outcome(old(fs).mounted(), old(fs).disk(), encode_utf8(path@)),
        final(fs).mounted() == old(fs).mounted(),
        r is Ok ==> final(fs).disk() == deleted_disk(
            old(fs).disk(),
            old(fs).spec_directory()->Ok_0,
            encode_utf8(path@),
        ),
        r is Err ==> final(fs).disk() == old(fs).disk(),
{
    fs.delete_file(path)
}

pub fn info(fs: &SimpleFs<MemoryBlockDevice>) -> (r: Result<StorageInfo, StorageError>)
    ensures
        !fs.mounted() ==> r == Ok::<StorageInfo, StorageError>(
            StorageInfo {
                mounted: false,
                file_count: 0,
                max_files: MAX_FILES,
                free_slots: MAX_FILES,
                capacity_bytes: CAPACITY_BYTES,
                max_file_size: MAX_FILE_SIZE,
            },
        ),
        fs.mounted() ==> match fs.spec_directory() {
            Ok(es) => r == Ok::<StorageInfo, StorageError>(
                StorageInfo {
                    mounted: true,
                    file_count: occupied_count(es) as usize,
                    max_files: MAX_FILES,
                    free_slots: (MAX_FILES - occupied_count(es)) as usize,
                    capacity_bytes: CAPACITY_BYTES,
                    max_file_size: MAX_FILE_SIZE,
                },
            ),
            Err(e) => r == Err::<StorageInfo, StorageError>(e),
        },
{
    fs.info()
}

/// Writes a file, remounts, and checks that the file reads back; the file stays.
pub fn phase7_smoke_check(fs: &mut SimpleFs<MemoryBlockDevice>) -> (r: bool)
    ensures
        r <==> {
            let path = encode_utf8("/phase7-smoke.txt"@);
            let data = encode_utf8("persistent-ok"@);
            write_outcome(old(fs).mounted(), old(fs).disk(), path, data, true) is Ok
        },
        r ==> final(fs).mounted() && final(fs).disk() == written_disk(
            old(fs).disk(),
            old(fs).spec_directory()->Ok_0,
            encode_utf8("/phase7-smoke.txt"@),
            encode_utf8("persistent-ok"@),
        ),
        !r ==> final(fs).mounted() == old(fs).mounted() && final(fs).disk() == old(fs).disk(),
{
    let path = "/phase7-smoke.txt";
    let contents = "persistent-ok";
    if write_file(fs, path, contents).is_err() {
        return false;
    }
    proof {
        encode_utf8_valid_utf8(path@);
        encode_utf8_valid_utf8(contents@);
        law_read_after_write(old(fs).disk(), encode_utf8(path@), encode_utf8(contents@), true);
        lemma_decode_entries_sound(directory_bytes(old(fs).disk()), MAX_FILES as nat);
        lemma_write_slot(old(fs).spec_directory()->Ok_0, encode_utf8(path@));
        let es = old(fs).spec_directory()->Ok_0;
        let (k, ds) = write_slot(es, encode_utf8(path@));
        let nes = written_directory(es, encode_utf8(path@), encode_utf8(contents@));
        lemma_occupied_count_bound(nes);
        lemma_header_round_trip(fs.disk(), occupied_count(nes));
    }
    if remount(fs).is_err() {
        return false;
    }
    let expected = contents.to_owned();
    match read_file(fs, path) {
        Ok(Some(text)) => {
            proof {
                lemma_encode_utf8_injective(text@, expected@);
            }
            text == expected
        },
        _ => false,
    }
}

/// The files every fresh image starts with: (path, contents). Each `/bin` file is the
/// manifest of a builtin program of the same name.
pub open spec fn bootstrap_files() -> Seq<(Seq<char>, Seq<char>)> {
    seq![
        ("/README.txt"@, "AresOS persistent storage"@),
        ("/bin/echo"@, "ares-exec-v1\nname=echo\nkind=builtin-alias\nentry=echo\ndescription=builtin: echo"@),
        ("/bin/time"@, "ares-exec-v1\nname=time\nkind=builtin-alias\nentry=time\ndescription=builtin: time"@),
        ("/bin/sysinfo"@, "ares-exec-v1\nname=sysinfo\nkind=builtin-alias\nentry=sysinfo\ndescription=builtin: sysinfo"@),
        ("/bin/fsinfo"@, "ares-exec-v1\nname=fsinfo\nkind=builtin-alias\nentry=fsinfo\ndescription=builtin: fsinfo"@),
    ]
}

/// One seeding write: a file that already exists is left alone; another error stops.
pub open spec fn seed_step(mounted: bool, disk: Seq<Seq<u8>>, path: Seq<u8>, data: Seq<u8>) -> (
    Result<(), StorageError>,
    Seq<Seq<u8>>,
) {
    match write_outcome(mounted, disk, path, data, true) {
        Ok(()) => (Ok(()), written_disk(disk, directory_result(mounted, disk)->Ok_0, path, data)),
        Err(StorageError::AlreadyExists) => (Ok(()), disk),
        Err(e) => (Err(e), disk),
    }
}

/// The outcome and the disk after seeding the first `k` bootstrap files.
pub open spec fn seeded(mounted: bool, disk: Seq<Seq<u8>>, k: nat) -> (Result<(), StorageError>, Seq<Seq<u8>>)
    decreases k,
{
    if k == 0 {
        (Ok(()), disk)
    } else {
        let (r, d) = seeded(mounted, disk, (k - 1) as nat);
        match r {
            Err(e) => (Err(e), d),
            Ok(()) => {
                let (p, c) = bootstrap_files()[k - 1];
                seed_step(mounted, d, encode_utf8(p), encode_utf8(c))
            },
        }
    }
}

proof fn lemma_seeded_err_sticks(mounted: bool, disk: Seq<Seq<u8>>, k: nat, m: nat)
    requires
        k <= m,
        seeded(mounted, disk, k).0 is Err,
    ensures
        seeded(mounted, disk, m) == seeded(mounted, disk, k),
    decreases m - k,
{
    if k < m {
        lemma_seeded_err_sticks(mounted, disk, k, (m - 1) as nat);
    }
}

/// A freshly formatted disk of `n` sectors.
pub open spec fn formatted_disk(n: nat) -> Seq<Seq<u8>> {
    Seq::new(n, |i: int| if i == 0 { header_sector(0) } else { zero_sector() })
}

/// Writes the files every fresh image starts with.
fn seed_bootstrap_files(fs: &mut SimpleFs<MemoryBlockDevice>) -> (r: Result<(), StorageError>)
    ensures
        final(fs).mounted() == old(fs).mounted(),
        (r, final(fs).disk()) == seeded(old(fs).mounted(), old(fs).disk(), 5),
{
    let seeds: [(&str, &str); 5] = [
        ("/README.txt", "AresOS persistent storage"),
        ("/bin/echo", "ares-exec-v1\nname=echo\nkind=builtin-alias\nentry=echo\ndescription=builtin: echo"),
        ("/bin/time", "ares-exec-v1\nname=time\nkind=builtin-alias\nentry=time\ndescription=builtin: time"),
        ("/bin/sysinfo", "ares-exec-v1\nname=sysinfo\nkind=builtin-alias\nentry=sysinfo\ndescription=builtin: sysinfo"),
        ("/bin/fsinfo", "ares-exec-v1\nname=fsinfo\nkind=builtin-alias\nentry=fsinfo\ndescription=builtin: fsinfo"),
    ];
    assert(forall|j: int| 0 <= j < 5 ==> (#[trigger] seeds@[j]).0@ == bootstrap_files()[j].0 && seeds@[j].1@
        == bootstrap_files()[j].1);
    let mut i: usize = 0;
    while i < 5
        invariant
            i <= 5,
            fs.mounted() == old(fs).mounted(),
            forall|j: int| 0 <= j < 5 ==> (#[trigger] seeds@[j]).0@ == bootstrap_files()[j].0 && seeds@[j].1@
                == bootstrap_files()[j].1,
            seeded(old(fs).mounted(), old(fs).disk(), i as nat) == (Ok::<(), StorageError>(()), fs.disk()),
        decreases 5 - i,
    {
        let (path, contents) = seeds[i];
        let w = fs.write_file(path, contents);
        match w {
            Ok(()) => {},
            Err(StorageError::AlreadyExists) => {},
            Err(err) => {
                proof {
                    lemma_seeded_err_sticks(old(fs).mounted(), old(fs).disk(), (i + 1) as nat, 5);
                }
                return Err(err);
            },
        }
        i = i + 1;
    }
    Ok(())
}

} // verus!
