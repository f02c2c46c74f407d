//! Inactive user page-table descriptors: the page mappings of a frame-backed image,
//! checked and counted, before any hardware page table exists.

use vstd::prelude::*;
use crate::address_space::AddressSpaceId;
use crate::frame_backing::{all_pages, BackedPage, FrameBackedImage, FrameBackedRegion};
use crate::frame_ownership::OwnedFrameToken;
use crate::load_plan::{LoadPermissions, PAGE_SIZE};

verus! {

#[derive(Debug, Clone, Copy, PartialEq, Eq, Structural)]
pub struct UserPageTableId(pub u64);

impl UserPageTableId {
    pub fn from_raw(raw: u64) -> (r: Self)
        ensures
            r.0 == raw,
    {
        UserPageTableId(raw)
    }

    pub fn as_u64(self) -> (r: u64)
        ensures
            r == self.0,
    {
        self.0
    }
}

#[derive(Debug, Clone, Copy, PartialEq, Eq, Structural)]
pub struct UserPageMapping {
    pub virtual_address: u64,
    pub physical_address: u64,
    pub frame: OwnedFrameToken,
    pub permissions: LoadPermissions,
}

#[derive(Debug, Clone)]
pub struct InactiveUserPageTable {
    pub id: UserPageTableId,
    pub address_space_id: AddressSpaceId,
    pub mappings: Vec<UserPageMapping>,
    pub mapped_pages: usize,
    pub executable_pages: usize,
    pub writable_pages: usize,
    pub read_only_pages: usize,
    pub kernel_shared: bool,
    pub cr3_switch_ready: bool,
}

#[derive(Debug, Clone, Copy, PartialEq, Eq, Structural)]
pub enum UserMemoryError {
    EmptyBacking,
    DuplicateVirtualPage,
    UnalignedVirtualAddress,
}

/// What is known of an inactive page table.
pub struct PageTableView {
    pub id: UserPageTableId,
    pub address_space_id: AddressSpaceId,
    pub mappings: Seq<UserPageMapping>,
    pub mapped_pages: usize,
    pub executable_pages: usize,
    pub writable_pages: usize,
    pub read_only_pages: usize,
    pub kernel_shared: bool,
    pub cr3_switch_ready: bool,
}

pub open spec fn table_view(t: InactiveUserPageTable) -> PageTableView {
    PageTableView {
        id: t.id,
        address_space_id: t.address_space_id,
        mappings: t.mappings@,
        mapped_pages: t.mapped_pages,
        executable_pages: t.executable_pages,
        writable_pages: t.writable_pages,
        read_only_pages: t.read_only_pages,
        kernel_shared: t.kernel_shared,
        cr3_switch_ready: t.cr3_switch_ready,
    }
}

pub open spec fn page_mapping(p: BackedPage) -> UserPageMapping {
    UserPageMapping {
        virtual_address: p.virtual_address,
        physical_address: p.frame.start_address,
        frame: p.frame.token,
        permissions: p.permissions,
    }
}

/// Why the pages `ps` cannot form a page table: the first page that is not page
/// aligned or repeats an earlier page's address.
pub open spec fn pages_error(ps: Seq<BackedPage>) -> Option<UserMemoryError>
    decreases ps.len(),
{
    if ps.len() == 0 {
        None
    } else {
        match pages_error(ps.drop_last()) {
            Some(e) => Some(e),
            None => if ps.last().virtual_address % (PAGE_SIZE as u64) != 0 {
                Some(UserMemoryError::UnalignedVirtualAddress)
            } else if exists|j: int|
                0 <= j < ps.len() - 1 && (#[trigger] ps[j]).virtual_address == ps.last().virtual_address {
                Some(UserMemoryError::DuplicateVirtualPage)
            } else {
                None
            },
        }
    }
}

/// Number of mappings whose permissions satisfy `f`.
pub open spec fn count_where(ms: Seq<UserPageMapping>, f: spec_fn(LoadPermissions) -> bool) -> nat
    decreases ms.len(),
{
    if ms.len() == 0 {
        0
    } else {
        count_where(ms.drop_last(), f) + if f(ms.last().permissions) {
            1nat
        } else {
            0nat
        }
    }
}

pub open spec fn is_exec() -> spec_fn(LoadPermissions) -> bool {
    |p: LoadPermissions| p.execute
}

pub open spec fn is_writable() -> spec_fn(LoadPermissions) -> bool {
    |p: LoadPermissions| p.write
}

pub open spec fn sat_sub(a: int, b: int) -> int {
    if a < b {
        0
    } else {
        a - b
    }
}

/// The page table built from a backed image.
pub open spec fn built_table(id: UserPageTableId, backed: FrameBackedImage) -> PageTableView {
    let ms = all_pages(backed.regions@).map_values(|p: BackedPage| page_mapping(p));
    PageTableView {
        id,
        address_space_id: backed.address_space_id,
        mappings: ms,
        mapped_pages: ms.len() as usize,
        executable_pages: count_where(ms, is_exec()) as usize,
        writable_pages: count_where(ms, is_writable()) as usize,
        read_only_pages: sat_sub(sat_sub(ms.len() as int, count_where(ms, is_exec()) as int), count_where(ms, is_writable()) as int) as usize,
        kernel_shared: true,
        cr3_switch_ready: false,
    }
}

/// What building the page table of `backed` gives.
pub open spec fn build_result(id: UserPageTableId, backed: FrameBackedImage) -> Result<PageTableView, UserMemoryError> {
    if backed.total_pages == 0 || backed.regions@.len() == 0 {
        Err(UserMemoryError::EmptyBacking)
    } else {
        match pages_error(all_pages(backed.regions@)) {
            Some(e) => Err(e),
            None => Ok(built_table(id, backed)),
        }
    }
}

proof fn lemma_pages_error_sticks(ps: Seq<BackedPage>, k: int)
    requires
        0 <= k <= ps.len(),
        pages_error(ps.subrange(0, k)) is Some,
    ensures
        pages_error(ps) == pages_error(ps.subrange(0, k)),
    decreases ps.len() - k,
{
    if k < ps.len() {
        assert(ps.subrange(0, k + 1).drop_last() =~= ps.subrange(0, k));
        lemma_pages_error_sticks(ps, k + 1);
    } else {
        assert(ps.subrange(0, k) =~= ps);
    }
}

proof fn lemma_count_bound(ms: Seq<UserPageMapping>, f: spec_fn(LoadPermissions) -> bool)
    ensures
        count_where(ms, f) <= ms.len(),
    decreases ms.len(),
{
    if ms.len() > 0 {
        lemma_count_bound(ms.drop_last(), f);
    }
}

fn count_mappings(ms: &Vec<UserPageMapping>, exec: bool) -> (r: usize)
    ensures
        r == count_where(ms@, if exec { is_exec() } else { is_writable() }),
{
    let ghost f = if exec { is_exec() } else { is_writable() };
    let mut n: usize = 0;
    let mut i: usize = 0;
    while i < ms.len()
        invariant
            i <= ms@.len(),
            f == (if exec { is_exec() } else { is_writable() }),
            n == count_where(ms@.subrange(0, i as int), f),
            n <= i,
        decreases ms@.len() - i,
    {
        assert(ms@.subrange(0, i as int + 1).drop_last() =~= ms@.subrange(0, i as int));
        assert(ms@.subrange(0, i as int + 1).last() == ms@[i as int]);
        let p = ms[i].permissions;
        let hit = if exec {
            p.executable()
        } else {
            p.writable()
        };
        if hit {
            n = n + 1;
        }
        i = i + 1;
    }
    assert(ms@.subrange(0, i as int) =~= ms@);
    n
}

/// Builds the inactive page table of `backed`: one mapping per backed page, in order.
pub fn build_inactive_page_table(id: UserPageTableId, backed: &FrameBackedImage) -> (r: Result<
    InactiveUserPageTable,
    UserMemoryError,
>)
    ensures
        match build_result(id, *backed) {
            Ok(v) => r is Ok && table_view(r->Ok_0) == v,
            Err(e) => r is Err && r->Err_0 == e,
        },
{
    if backed.total_pages == 0 || backed.regions.len() == 0 {
        return Err(UserMemoryError::EmptyBacking);
    }
    let ghost rs = backed.regions@;
    let ghost all = all_pages(rs);
    let mut mappings: Vec<UserPageMapping> = Vec::new();
    let mut k: usize = 0;
    while k < backed.regions.len()
        invariant
            rs == backed.regions@,
            all == all_pages(rs),
            backed.total_pages != 0 && rs.len() > 0,
            k <= rs.len(),
            pages_error(all_pages(rs.subrange(0, k as int))) is None,
            mappings@ == all_pages(rs.subrange(0, k as int)).map_values(|p: BackedPage| page_mapping(p)),
        decreases rs.len() - k,
    {
        let region = &backed.regions[k];
        let ghost before = all_pages(rs.subrange(0, k as int));
        proof {
            assert(rs.subrange(0, k as int + 1).drop_last() =~= rs.subrange(0, k as int));
            assert(rs.subrange(0, k as int + 1).last() == rs[k as int]);
            lemma_all_pages_prefix(rs, k as int + 1);
        }
        let mut i: usize = 0;
        while i < region.pages.len()
            invariant
                rs == backed.regions@,
                all == all_pages(rs),
                backed.total_pages != 0 && rs.len() > 0,
                k < rs.len(),
                *region == rs[k as int],
                before == all_pages(rs.subrange(0, k as int)),
                all_pages(rs.subrange(0, k as int + 1)) == before + region.pages@,
                all_pages(rs.subrange(0, k as int + 1)) == all.subrange(0, all_pages(rs.subrange(0, k as int + 1)).len() as int),
                all_pages(rs.subrange(0, k as int + 1)).len() <= all.len(),
                i <= region.pages@.len(),
                pages_error(before + region.pages@.subrange(0, i as int)) is None,
                mappings@ == (before + region.pages@.subrange(0, i as int)).map_values(|p: BackedPage| page_mapping(p)),
            decreases region.pages@.len() - i,
        {
            let page = region.pages[i];
            let ghost pre = before + region.pages@.subrange(0, i as int);
            let ghost pre1 = before + region.pages@.subrange(0, i as int + 1);
            assert(pre1.drop_last() =~= pre);
            assert(pre1.last() == page);
            assert(pre1 =~= pre.push(page));
            proof {
                let full = all_pages(rs.subrange(0, k as int + 1));
                assert(full.subrange(0, pre1.len() as int) =~= pre1);
                assert(all.subrange(0, pre1.len() as int) =~= full.subrange(0, pre1.len() as int));
            }
            assert(all.subrange(0, pre1.len() as int) == pre1);
            assert(pre1.len() <= all.len());
            if page.virtual_address % (PAGE_SIZE as u64) != 0 {
                proof {
                    lemma_pages_error_sticks(all, pre1.len() as int);
                }
                return Err(UserMemoryError::UnalignedVirtualAddress);
            }
            let mut j: usize = 0;
            while j < mappings.len()
                invariant
                    j <= mappings@.len(),
                    rs == backed.regions@,
                    all == all_pages(rs),
                    backed.total_pages != 0 && rs.len() > 0,
                    pre1 == pre.push(page),
                    all.subrange(0, pre1.len() as int) == pre1,
                    pre1.len() <= all.len(),
                    pages_error(pre) is None,
                    page.virtual_address % (PAGE_SIZE as u64) == 0,
                    mappings@.len() == pre.len(),
                    mappings@ == pre.map_values(|p: BackedPage| page_mapping(p)),
                    forall|t: int| 0 <= t < j ==> (#[trigger] pre[t]).virtual_address != page.virtual_address,
                decreases mappings@.len() - j,
            {
                if mappings[j].virtual_address == page.virtual_address {
                    proof {
                        assert(pre[j as int].virtual_address == page.virtual_address);
                        assert(pre1[j as int] == pre[j as int]);
                        assert(pre1.drop_last() =~= pre);
                        assert(pre1.last() == page);
                        assert(pre1[j as int].virtual_address == pre1.last().virtual_address);
                        assert(pages_error(pre1) == Some(UserMemoryError::DuplicateVirtualPage));
                        lemma_pages_error_sticks(all, pre1.len() as int);
                    }
                    return Err(UserMemoryError::DuplicateVirtualPage);
                }
                assert(mappings@[j as int] == page_mapping(pre[j as int]));
                j = j + 1;
            }
            proof {
                assert forall|t: int| 0 <= t < pre1.len() - 1 implies (#[trigger] pre1[t]).virtual_address
                    != pre1.last().virtual_address by {
                    assert(pre1[t] == pre[t]);
                }
            }
            mappings.push(
                UserPageMapping {
                    virtual_address: page.virtual_address,
                    physical_address: page.frame.start_address,
                    frame: page.frame.token,
                    permissions: page.permissions,
                },
            );
            assert(mappings@ =~= pre1.map_values(|p: BackedPage| page_mapping(p)));
            i = i + 1;
        }
        assert(region.pages@.subrange(0, i as int) =~= region.pages@);
        k = k + 1;
    }
    assert(rs.subrange(0, k as int) =~= rs);
    let executable_pages = count_mappings(&mappings, true);
    let writable_pages = count_mappings(&mappings, false);
    let read_only_pages = mappings.len().saturating_sub(executable_pages).saturating_sub(writable_pages);
    let mapped_pages = mappings.len();
    Ok(InactiveUserPageTable {
        id,
        address_space_id: backed.address_space_id,
        mapped_pages,
        mappings,
        executable_pages,
        writable_pages,
        read_only_pages,
        kernel_shared: true,
        cr3_switch_ready: false,
    })
}

proof fn lemma_all_pages_prefix(rs: Seq<FrameBackedRegion>, k: int)
    requires
        0 <= k <= rs.len(),
    ensures
        all_pages(rs.subrange(0, k)) == all_pages(rs).subrange(0, all_pages(rs.subrange(0, k)).len() as int),
        all_pages(rs.subrange(0, k)).len() <= all_pages(rs).len(),
    decreases rs.len() - k,
{
    if k < rs.len() {
        lemma_all_pages_prefix(rs, k + 1);
        let a = rs.subrange(0, k);
        let b = rs.subrange(0, k + 1);
        assert(b.drop_last() =~= a);
        assert(all_pages(b) == all_pages(a) + rs[k].pages@);
        assert(all_pages(a) =~= all_pages(b).subrange(0, all_pages(a).len() as int));
    } else {
        assert(rs.subrange(0, k) =~= rs);
    }
}

/// The page base of `va`.
pub open spec fn page_base(va: u64) -> u64 {
    (va - va % (PAGE_SIZE as u64)) as u64
}

/// Index of the first mapping of the page at `base`.
pub open spec fn mapping_index(ms: Seq<UserPageMapping>, base: u64) -> Option<int> {
    if exists|i: int| 0 <= i < ms.len() && (#[trigger] ms[i]).virtual_address == base {
        Some(choose|i: int|
            0 <= i < ms.len() && (#[trigger] ms[i]).virtual_address == base && forall|j: int|
                0 <= j < i ==> (#[trigger] ms[j]).virtual_address != base)
    } else {
        None
    }
}

/// What translating `va` through the mappings `ms` gives.
pub open spec fn translation(ms: Seq<UserPageMapping>, va: u64) -> Option<u64> {
    match mapping_index(ms, page_base(va)) {
        Some(i) => Some(
            if ms[i].physical_address + va % (PAGE_SIZE as u64) > u64::MAX {
                u64::MAX
            } else {
                (ms[i].physical_address + va % (PAGE_SIZE as u64)) as u64
            },
        ),
        None => None,
    }
}

/// The physical address that `virtual_address` maps to in `table`, if its page is
/// mapped.
pub fn translate(table: &InactiveUserPageTable, virtual_address: u64) -> (r: Option<u64>)
    ensures
        r == translation(table.mappings@, virtual_address),
{
    let mask: u64 = (PAGE_SIZE as u64) - 1;
    let page_base_addr = virtual_address & !mask;
    assert(page_base_addr == virtual_address - virtual_address % 4096 && page_base_addr <= virtual_address) by (bit_vector)
        requires
            mask == 4095u64,
            page_base_addr == virtual_address & !mask,
    ;
    let offset = virtual_address.saturating_sub(page_base_addr);
    let ghost ms = table.mappings@;
    let mut i: usize = 0;
    while i < table.mappings.len()
        invariant
            ms == table.mappings@,
            i <= ms.len(),
            page_base_addr == page_base(virtual_address),
            offset == virtual_address % 4096,
            forall|j: int| 0 <= j < i ==> (#[trigger] ms[j]).virtual_address != page_base_addr,
        decreases ms.len() - i,
    {
        if table.mappings[i].virtual_address == page_base_addr {
            proof {
                let c = choose|c: int|
                    0 <= c < ms.len() && (#[trigger] ms[c]).virtual_address == page_base_addr && forall|j: int|
                        0 <= j < c ==> (#[trigger] ms[j]).virtual_address != page_base_addr;
                assert(ms[i as int].virtual_address == page_base_addr);
                if c < i {
                    assert(ms[c].virtual_address != page_base_addr);
                } else if c > i {
                    assert(ms[i as int].virtual_address != page_base_addr);
                }
            }
            return Some(table.mappings[i].physical_address.saturating_add(offset));
        }
        i = i + 1;
    }
    None
}

proof fn lemma_pages_ok(ps: Seq<BackedPage>)
    requires
        pages_error(ps) is None,
    ensures
        forall|i: int| 0 <= i < ps.len() ==> (#[trigger] ps[i]).virtual_address % 4096 == 0,
        forall|i: int, j: int| 0 <= i < j < ps.len() ==> (#[trigger] ps[i]).virtual_address != (#[trigger] ps[j]).virtual_address,
    decreases ps.len(),
{
    if ps.len() > 0 {
        let d = ps.drop_last();
        lemma_pages_ok(d);
        assert forall|i: int| 0 <= i < ps.len() implies (#[trigger] ps[i]).virtual_address % 4096 == 0 by {
            if i < ps.len() - 1 {
                assert(ps[i] == d[i]);
            }
        }
        assert forall|i: int, j: int| 0 <= i < j < ps.len() implies (#[trigger] ps[i]).virtual_address != (#[trigger] ps[j]).virtual_address by {
            if j < ps.len() - 1 {
                assert(ps[i] == d[i] && ps[j] == d[j]);
            } else {
                assert(!(exists|t: int| 0 <= t < ps.len() - 1 && (#[trigger] ps[t]).virtual_address == ps.last().virtual_address));
            }
        }
    }
}

/// In a page table built from a backed image, every address inside a mapped page
/// translates to the same offset inside that page's frame.
pub proof fn law_built_table_translates(id: UserPageTableId, backed: FrameBackedImage, i: int, offset: u64)
    requires
        build_result(id, backed) is Ok,
        0 <= i < build_result(id, backed)->Ok_0.mappings.len(),
        offset < 4096,
        build_result(id, backed)->Ok_0.mappings[i].physical_address + offset <= u64::MAX,
    ensures
        ({
            let m = build_result(id, backed)->Ok_0.mappings[i];
            translation(build_result(id, backed)->Ok_0.mappings, (m.virtual_address + offset) as u64) == Some(
                (m.physical_address + offset) as u64,
            )
        }),
{
    let ps = all_pages(backed.regions@);
    let ms = build_result(id, backed)->Ok_0.mappings;
    lemma_pages_ok(ps);
    let m = ms[i];
    assert(m == page_mapping(ps[i]));
    let va = m.virtual_address;
    assert(va % 4096 == 0);
    assert(va + offset <= u64::MAX) by {
        assert(va <= u64::MAX - 4095) by (nonlinear_arith)
            requires
                va % 4096 == 0,
                va <= u64::MAX,
        ;
    }
    let a = (va + offset) as u64;
    assert(a % 4096 == offset && a - a % 4096 == va) by (nonlinear_arith)
        requires
            va % 4096 == 0,
            offset < 4096,
            a == va + offset,
    ;
    assert(page_base(a) == va);
    assert(ms[i].virtual_address == va);
    let c = choose|c: int|
        0 <= c < ms.len() && (#[trigger] ms[c]).virtual_address == va && forall|j: int|
            0 <= j < c ==> (#[trigger] ms[j]).virtual_address != va;
    assert forall|j: int| 0 <= j < ms.len() && j != i implies (#[trigger] ms[j]).virtual_address != va by {
        assert(ms[j] == page_mapping(ps[j]));
        if j < i {
            assert(ps[j].virtual_address != ps[i].virtual_address);
        } else {
            assert(ps[i].virtual_address != ps[j].virtual_address);
        }
    }
    assert(forall|j: int| 0 <= j < i ==> (#[trigger] ms[j]).virtual_address != va);
}

} // verus!
