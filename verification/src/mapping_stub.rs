//! Deterministic mapping of executable load plans: each page of each region gets a
//! frame token and each copy or zero-fill action is checked against its region,
//! without touching any page table.

use vstd::prelude::*;
use crate::address_space::{AddressSpaceId, MappingState};
use crate::load_plan::{LoadAction, LoadPermissions, LoadPlan, LoadRegion, MAX_IMAGE_PAGES, PAGE_SIZE};
use crate::security::Credentials;

verus! {

broadcast use vstd::std_specs::vec::group_vec_axioms;

/// Most images the registry holds.
pub const MAX_MAPPED_IMAGES: usize = 1024;
/// Frame tokens of mapping `id` start at `id * FRAMES_PER_MAPPING`.
pub const FRAMES_PER_MAPPING: u64 = 10_000;

#[derive(Debug, Clone, Copy, PartialEq, Eq, Structural)]
pub struct MappingId(pub u64);

impl MappingId {
    pub open spec fn raw(self) -> u64 {
        self.0
    }

    pub fn from_raw(raw: u64) -> (r: Self)
        ensures
            r.raw() == raw,
    {
        MappingId(raw)
    }

    pub fn as_u64(self) -> (r: u64)
        ensures
            r == self.raw(),
    {
        self.0
    }
}

#[derive(Debug, Clone, Copy, PartialEq, Eq, Structural)]
pub struct FrameToken(pub u64);

impl FrameToken {
    pub open spec fn raw(self) -> u64 {
        self.0
    }

    pub fn from_raw(raw: u64) -> (r: Self)
        ensures
            r.raw() == raw,
    {
        FrameToken(raw)
    }

    pub fn as_u64(self) -> (r: u64)
        ensures
            r == self.raw(),
    {
        self.0
    }
}

#[derive(Debug, Clone, Copy, PartialEq, Eq, Structural)]
pub struct MappedPage {
    pub virtual_address: u64,
    pub frame: FrameToken,
    pub permissions: LoadPermissions,
}

#[derive(Debug, Clone, Copy, PartialEq, Eq, Structural)]
pub struct MappingActionResult {
    pub target_address: u64,
    pub len: usize,
    pub kind: MappingActionKind,
}

#[derive(Debug, Clone, Copy, PartialEq, Eq, Structural)]
pub enum MappingActionKind {
    Copy,
    ZeroFill,
}

#[derive(Debug, Clone)]
pub struct MappedRegion {
    pub start: u64,
    pub size: usize,
    pub permissions: LoadPermissions,
    pub pages: Vec<MappedPage>,
    pub actions: Vec<MappingActionResult>,
}

#[derive(Debug, Clone)]
pub struct MappedImage {
    pub id: MappingId,
    pub image_name: String,
    pub source_path: String,
    pub address_space_id: AddressSpaceId,
    pub regions: Vec<MappedRegion>,
    pub total_pages: usize,
    pub executable_pages: usize,
    pub writable_pages: usize,
    pub read_only_pages: usize,
    pub copied_bytes: usize,
    pub zero_filled_bytes: usize,
    pub owner: Credentials,
    pub state: MappingState,
}

#[derive(Debug, Clone, Copy, PartialEq, Eq, Structural)]
pub enum MappingStubError {
    EmptyPlan,
    PageBudgetExceeded,
    RegistryFull,
    CopyOutOfBounds,
    UnsafePermissions,
}

#[derive(Debug, Clone, Copy, PartialEq, Eq, Structural)]
pub struct MappingRegistryStatus {
    pub mapped_count: usize,
    pub total_pages: usize,
    pub copied_bytes: usize,
    pub zero_filled_bytes: usize,
}

// ───────────────────────────── the model ─────────────────────────────

/// What is known of a mapped region.
pub struct MappedRegionView {
    pub start: u64,
    pub size: usize,
    pub permissions: LoadPermissions,
    pub pages: Seq<MappedPage>,
    pub actions: Seq<MappingActionResult>,
}

/// What is known of a mapped image.
pub struct MappedImageView {
    pub id: MappingId,
    pub image_name: Seq<char>,
    pub source_path: Seq<char>,
    pub address_space_id: AddressSpaceId,
    pub regions: Seq<MappedRegionView>,
    pub total_pages: usize,
    pub executable_pages: usize,
    pub writable_pages: usize,
    pub read_only_pages: usize,
    pub copied_bytes: usize,
    pub zero_filled_bytes: usize,
    pub owner: Credentials,
    pub state: MappingState,
}

pub open spec fn region_view(r: MappedRegion) -> MappedRegionView {
    MappedRegionView {
        start: r.start,
        size: r.size,
        permissions: r.permissions,
        pages: r.pages@,
        actions: r.actions@,
    }
}

pub open spec fn image_view(m: MappedImage) -> MappedImageView {
    MappedImageView {
        id: m.id,
        image_name: m.image_name@,
        source_path: m.source_path@,
        address_space_id: m.address_space_id,
        regions: m.regions@.map_values(|r: MappedRegion| region_view(r)),
        total_pages: m.total_pages,
        executable_pages: m.executable_pages,
        writable_pages: m.writable_pages,
        read_only_pages: m.read_only_pages,
        copied_bytes: m.copied_bytes,
        zero_filled_bytes: m.zero_filled_bytes,
        owner: m.owner,
        state: m.state,
    }
}

/// `n` saturated to `usize`.
pub open spec fn cap(n: int) -> usize {
    if n > usize::MAX {
        usize::MAX
    } else {
        n as usize
    }
}

/// `n` saturated to `u64`.
pub open spec fn cap64(n: int) -> u64 {
    if n > u64::MAX {
        u64::MAX
    } else {
        n as u64
    }
}

/// Whether an action of `len` bytes at `target` lies inside the region.
pub open spec fn action_fits(start: u64, size: usize, target: u64, len: usize) -> bool {
    &&& start + size <= u64::MAX
    &&& target + len <= u64::MAX
    &&& start <= target
    &&& target + len <= start + size
}

pub open spec fn load_action_fits(r: LoadRegion, a: LoadAction) -> bool {
    match a {
        LoadAction::Copy { target_address, len, .. } => action_fits(r.start, r.size, target_address, len),
        LoadAction::ZeroFill { target_address, len } => action_fits(r.start, r.size, target_address, len),
    }
}

pub open spec fn unsafe_permissions(p: LoadPermissions) -> bool {
    p.write && p.execute
}

/// Why region `r` cannot be mapped, if it cannot.
pub open spec fn region_error(r: LoadRegion) -> Option<MappingStubError> {
    if unsafe_permissions(r.permissions) {
        Some(MappingStubError::UnsafePermissions)
    } else if exists|j: int| 0 <= j < r.actions@.len() && !load_action_fits(r, #[trigger] r.actions@[j]) {
        Some(MappingStubError::CopyOutOfBounds)
    } else {
        None
    }
}

/// The error of the first region that cannot be mapped.
pub open spec fn regions_error(rs: Seq<LoadRegion>) -> Option<MappingStubError>
    decreases rs.len(),
{
    if rs.len() == 0 {
        None
    } else {
        match regions_error(rs.drop_last()) {
            Some(e) => Some(e),
            None => region_error(rs.last()),
        }
    }
}

/// Pages of the regions of `rs` whose permissions satisfy `f`.
pub open spec fn pages_where(rs: Seq<LoadRegion>, f: spec_fn(LoadPermissions) -> bool) -> int
    decreases rs.len(),
{
    if rs.len() == 0 {
        0
    } else {
        pages_where(rs.drop_last(), f) + if f(rs.last().permissions) {
            rs.last().page_count as int
        } else {
            0int
        }
    }
}

pub open spec fn any_perm() -> spec_fn(LoadPermissions) -> bool {
    |p: LoadPermissions| true
}

pub open spec fn exec_perm() -> spec_fn(LoadPermissions) -> bool {
    |p: LoadPermissions| p.execute
}

pub open spec fn writable_perm() -> spec_fn(LoadPermissions) -> bool {
    |p: LoadPermissions| !p.execute && p.write
}

pub open spec fn read_only_perm() -> spec_fn(LoadPermissions) -> bool {
    |p: LoadPermissions| !p.execute && !p.write
}

/// Bytes moved by the actions of `acts` of the given kind.
pub open spec fn action_bytes(acts: Seq<LoadAction>, copy: bool) -> int
    decreases acts.len(),
{
    if acts.len() == 0 {
        0
    } else {
        action_bytes(acts.drop_last(), copy) + match acts.last() {
            LoadAction::Copy { len, .. } => if copy {
                len as int
            } else {
                0int
            },
            LoadAction::ZeroFill { len, .. } => if copy {
                0int
            } else {
                len as int
            },
        }
    }
}

pub open spec fn plan_bytes(rs: Seq<LoadRegion>, copy: bool) -> int
    decreases rs.len(),
{
    if rs.len() == 0 {
        0
    } else {
        plan_bytes(rs.drop_last(), copy) + action_bytes(rs.last().actions@, copy)
    }
}

pub open spec fn action_result(a: LoadAction) -> MappingActionResult {
    match a {
        LoadAction::Copy { target_address, len, .. } => MappingActionResult {
            target_address,
            len,
            kind: MappingActionKind::Copy,
        },
        LoadAction::ZeroFill { target_address, len } => MappingActionResult {
            target_address,
            len,
            kind: MappingActionKind::ZeroFill,
        },
    }
}

/// The pages of region `r`, whose frame tokens count up from `first_frame`
/// (saturating).
pub open spec fn region_pages(r: LoadRegion, first_frame: int) -> Seq<MappedPage> {
    Seq::new(
        r.page_count as nat,
        |i: int|
            MappedPage {
                virtual_address: (r.start + i * PAGE_SIZE) as u64,
                frame: FrameToken(cap64(first_frame + i)),
                permissions: r.permissions,
            },
    )
}

/// The first frame token of mapping `id`.
pub open spec fn frame_base(id: MappingId) -> int {
    cap64(id.raw() * FRAMES_PER_MAPPING) as int
}

/// Region `k` of the plan `rs` mapped under `id`.
pub open spec fn mapped_region(rs: Seq<LoadRegion>, k: int, id: MappingId) -> MappedRegionView {
    let r = rs[k];
    MappedRegionView {
        start: r.start,
        size: r.size,
        permissions: r.permissions,
        pages: region_pages(r, frame_base(id) + pages_where(rs.subrange(0, k), any_perm())),
        actions: r.actions@.map_values(|a: LoadAction| action_result(a)),
    }
}

/// The image that mapping `plan` under `id` gives.
pub open spec fn mapped_image(
    owner: Credentials,
    id: MappingId,
    address_space_id: AddressSpaceId,
    plan: LoadPlan,
) -> MappedImageView {
    let rs = plan.regions@;
    MappedImageView {
        id,
        image_name: plan.image_name@,
        source_path: plan.source_path@,
        address_space_id,
        regions: Seq::new(rs.len(), |k: int| mapped_region(rs, k, id)),
        total_pages: cap(pages_where(rs, any_perm())),
        executable_pages: cap(pages_where(rs, exec_perm())),
        writable_pages: cap(pages_where(rs, writable_perm())),
        read_only_pages: cap(pages_where(rs, read_only_perm())),
        copied_bytes: cap(plan_bytes(rs, true)),
        zero_filled_bytes: cap(plan_bytes(rs, false)),
        owner,
        state: MappingState::MappedStub,
    }
}

/// The page addresses of a region reached by the mapper can be computed.
pub open spec fn pages_addressable(r: LoadRegion) -> bool {
    r.page_count * PAGE_SIZE <= usize::MAX && r.start + r.page_count * PAGE_SIZE <= u64::MAX + PAGE_SIZE
}

/// Every region that the mapper reaches has addressable pages.
pub open spec fn plan_addressable(rs: Seq<LoadRegion>) -> bool {
    forall|k: int|
        0 <= k < rs.len() && regions_error(rs.subrange(0, k)) is None && !unsafe_permissions(
            (#[trigger] rs[k]).permissions,
        ) ==> pages_addressable(rs[k])
}

/// What mapping `plan` gives.
pub open spec fn map_result(owner: Credentials, id: MappingId, address_space_id: AddressSpaceId, plan: LoadPlan) -> Result<
    MappedImageView,
    MappingStubError,
> {
    if plan.regions@.len() == 0 || plan.total_pages == 0 {
        Err(MappingStubError::EmptyPlan)
    } else if plan.total_pages + plan.stack_pages > MAX_IMAGE_PAGES {
        Err(MappingStubError::PageBudgetExceeded)
    } else {
        match regions_error(plan.regions@) {
            Some(e) => Err(e),
            None => Ok(mapped_image(owner, id, address_space_id, plan)),
        }
    }
}

proof fn lemma_pages_where_nonneg(rs: Seq<LoadRegion>, f: spec_fn(LoadPermissions) -> bool)
    ensures
        pages_where(rs, f) >= 0,
    decreases rs.len(),
{
    if rs.len() > 0 {
        lemma_pages_where_nonneg(rs.drop_last(), f);
    }
}

proof fn lemma_action_bytes_nonneg(acts: Seq<LoadAction>, copy: bool)
    ensures
        action_bytes(acts, copy) >= 0,
    decreases acts.len(),
{
    if acts.len() > 0 {
        lemma_action_bytes_nonneg(acts.drop_last(), copy);
    }
}

proof fn lemma_plan_bytes_nonneg(rs: Seq<LoadRegion>, copy: bool)
    ensures
        plan_bytes(rs, copy) >= 0,
    decreases rs.len(),
{
    if rs.len() > 0 {
        lemma_plan_bytes_nonneg(rs.drop_last(), copy);
        lemma_action_bytes_nonneg(rs.last().actions@, copy);
    }
}

/// How the totals grow when region `k` is added to the prefix.
proof fn lemma_prefix_step(rs: Seq<LoadRegion>, k: int)
    requires
        0 <= k < rs.len(),
    ensures
        ({
            let pre = rs.subrange(0, k);
            let pre1 = rs.subrange(0, k + 1);
            let p = rs[k].permissions;
            let n = rs[k].page_count as int;
            &&& pages_where(pre1, any_perm()) == pages_where(pre, any_perm()) + n
            &&& pages_where(pre1, exec_perm()) == pages_where(pre, exec_perm()) + if p.execute { n } else { 0 }
            &&& pages_where(pre1, writable_perm()) == pages_where(pre, writable_perm()) + if !p.execute && p.write {
                n
            } else {
                0
            }
            &&& pages_where(pre1, read_only_perm()) == pages_where(pre, read_only_perm()) + if !p.execute
                && !p.write {
                n
            } else {
                0
            }
            &&& plan_bytes(pre1, true) == plan_bytes(pre, true) + action_bytes(rs[k].actions@, true)
            &&& plan_bytes(pre1, false) == plan_bytes(pre, false) + action_bytes(rs[k].actions@, false)
            &&& pages_where(pre, any_perm()) >= 0 && pages_where(pre, exec_perm()) >= 0
            &&& pages_where(pre, writable_perm()) >= 0 && pages_where(pre, read_only_perm()) >= 0
            &&& plan_bytes(pre, true) >= 0 && plan_bytes(pre, false) >= 0
            &&& action_bytes(rs[k].actions@, true) >= 0 && action_bytes(rs[k].actions@, false) >= 0
        }),
{
    let pre = rs.subrange(0, k);
    let pre1 = rs.subrange(0, k + 1);
    assert(pre1.drop_last() =~= pre);
    assert(pre1.last() == rs[k]);
    lemma_pages_where_nonneg(pre, any_perm());
    lemma_pages_where_nonneg(pre, exec_perm());
    lemma_pages_where_nonneg(pre, writable_perm());
    lemma_pages_where_nonneg(pre, read_only_perm());
    lemma_plan_bytes_nonneg(pre, true);
    lemma_plan_bytes_nonneg(pre, false);
    lemma_action_bytes_nonneg(rs[k].actions@, true);
    lemma_action_bytes_nonneg(rs[k].actions@, false);
}

proof fn lemma_region_pages_cap(r: LoadRegion, f: int)
    requires
        f >= 0,
    ensures
        region_pages(r, cap64(f) as int) == region_pages(r, f),
{
    assert(region_pages(r, cap64(f) as int) =~= region_pages(r, f));
}

proof fn lemma_regions_error_sticks(rs: Seq<LoadRegion>, k: int)
    requires
        0 <= k <= rs.len(),
        regions_error(rs.subrange(0, k)) is Some,
    ensures
        regions_error(rs) == regions_error(rs.subrange(0, k)),
    decreases rs.len() - k,
{
    if k < rs.len() {
        assert(rs.subrange(0, k + 1).drop_last() =~= rs.subrange(0, k));
        lemma_regions_error_sticks(rs, k + 1);
    } else {
        assert(rs.subrange(0, k) =~= rs);
    }
}

// ───────────────────────────── the mapper ─────────────────────────────

fn validate_action(region_start: u64, region_size: usize, target_address: u64, len: usize) -> (r: Result<
    (),
    MappingStubError,
>)
    ensures
        r is Ok <==> action_fits(region_start, region_size, target_address, len),
        r is Err ==> r == Err::<(), MappingStubError>(MappingStubError::CopyOutOfBounds),
{
    let region_end = match region_start.checked_add(region_size as u64) {
        Some(e) => e,
        None => return Err(MappingStubError::CopyOutOfBounds),
    };
    let action_end = match target_address.checked_add(len as u64) {
        Some(e) => e,
        None => return Err(MappingStubError::CopyOutOfBounds),
    };
    if target_address < region_start || action_end > region_end {
        return Err(MappingStubError::CopyOutOfBounds);
    }
    Ok(())
}

fn sat_add_usize(a: usize, b: usize) -> (r: usize)
    ensures
        r == cap(a + b),
{
    a.saturating_add(b)
}

/// Maps one region: its pages with frame tokens from `next_frame` on, and its
/// checked actions. Returns the region, the next free frame token and the copied and
/// zero-filled byte counts of the region.
fn map_region(region: &LoadRegion, next_frame: u64) -> (r: Result<(MappedRegion, u64), MappingStubError>)
    requires
        !unsafe_permissions(region.permissions),
        pages_addressable(*region),
    ensures
        match region_error(*region) {
            Some(e) => r == Err::<(MappedRegion, u64), MappingStubError>(e),
            None => r is Ok && {
                let (m, nf) = r->Ok_0;
                &&& region_view(m) == (MappedRegionView {
                    start: region.start,
                    size: region.size,
                    permissions: region.permissions,
                    pages: region_pages(*region, next_frame as int),
                    actions: region.actions@.map_values(|a: LoadAction| action_result(a)),
                })
                &&& nf == cap64(next_frame + region.page_count)
            },
        },
{
    let mut pages: Vec<MappedPage> = Vec::new();
    let mut frame = next_frame;
    let mut page_index: usize = 0;
    while page_index < region.page_count
        invariant
            page_index <= region.page_count,
            pages_addressable(*region),
            pages@ == region_pages(*region, next_frame as int).subrange(0, page_index as int),
            frame == cap64(next_frame + page_index),
        decreases region.page_count - page_index,
    {
        assert(page_index * PAGE_SIZE <= region.page_count * PAGE_SIZE) by (nonlinear_arith)
            requires
                page_index <= region.page_count,
        ;
        let offset = page_index * PAGE_SIZE;
        pages.push(
            MappedPage {
                virtual_address: region.start + offset as u64,
                frame: FrameToken(frame),
                permissions: region.permissions,
            },
        );
        frame = frame.saturating_add(1);
        assert(pages@ =~= region_pages(*region, next_frame as int).subrange(0, page_index as int + 1));
        page_index = page_index + 1;
    }
    assert(region_pages(*region, next_frame as int).subrange(0, page_index as int) =~= region_pages(
        *region,
        next_frame as int,
    ));
    let mut actions: Vec<MappingActionResult> = Vec::new();
    let ghost acts = region.actions@;
    let mut j: usize = 0;
    while j < region.actions.len()
        invariant
            acts == region.actions@,
            j <= acts.len(),
            !unsafe_permissions(region.permissions),
            forall|i: int| 0 <= i < j ==> load_action_fits(*region, #[trigger] acts[i]),
            actions@ == acts.subrange(0, j as int).map_values(|a: LoadAction| action_result(a)),
        decreases acts.len() - j,
    {
        let a = region.actions[j];
        assert(acts.subrange(0, j as int + 1).drop_last() =~= acts.subrange(0, j as int));
        match a {
            LoadAction::Copy { target_address, len, .. } => {
                if validate_action(region.start, region.size, target_address, len).is_err() {
                    assert(!load_action_fits(*region, acts[j as int]));
                    return Err(MappingStubError::CopyOutOfBounds);
                }
                actions.push(MappingActionResult { target_address, len, kind: MappingActionKind::Copy });
            },
            LoadAction::ZeroFill { target_address, len } => {
                if validate_action(region.start, region.size, target_address, len).is_err() {
                    assert(!load_action_fits(*region, acts[j as int]));
                    return Err(MappingStubError::CopyOutOfBounds);
                }
                actions.push(MappingActionResult { target_address, len, kind: MappingActionKind::ZeroFill });
            },
        }
        assert(actions@ =~= acts.subrange(0, j as int + 1).map_values(|a: LoadAction| action_result(a)));
        j = j + 1;
    }
    assert(acts.subrange(0, j as int) =~= acts);
    let region_out = MappedRegion {
        start: region.start,
        size: region.size,
        permissions: region.permissions,
        pages,
        actions,
    };
    Ok((region_out, frame))
}

/// Maps `plan` for `owner` under mapping `id` in address space `address_space_id`.
#[verifier::rlimit(50)]
pub fn map_load_plan(owner: Credentials, id: MappingId, address_space_id: AddressSpaceId, plan: &LoadPlan) -> (r: Result<
    MappedImage,
    MappingStubError,
>)
    requires
        plan.total_pages + plan.stack_pages <= usize::MAX,
        plan_addressable(plan.regions@),
    ensures
        match map_result(owner, id, address_space_id, *plan) {
            Ok(v) => r is Ok && image_view(r->Ok_0) == v,
            Err(e) => r == Err::<MappedImage, MappingStubError>(e),
        },
{
    if plan.regions.len() == 0 || plan.total_pages == 0 {
        return Err(MappingStubError::EmptyPlan);
    }
    if plan.total_pages + plan.stack_pages > MAX_IMAGE_PAGES {
        return Err(MappingStubError::PageBudgetExceeded);
    }
    let ghost rs = plan.regions@;
    let mut next_frame = match id.as_u64().checked_mul(FRAMES_PER_MAPPING) {
        Some(f) => f,
        None => u64::MAX,
    };
    let mut regions: Vec<MappedRegion> = Vec::new();
    let mut total_pages: usize = 0;
    let mut executable_pages: usize = 0;
    let mut writable_pages: usize = 0;
    let mut read_only_pages: usize = 0;
    let mut copied_bytes: usize = 0;
    let mut zero_filled_bytes: usize = 0;
    let mut k: usize = 0;
    while k < plan.regions.len()
        invariant
            rs == plan.regions@,
            rs.len() > 0,
            plan.total_pages != 0,
            plan.total_pages + plan.stack_pages <= MAX_IMAGE_PAGES,
            k <= rs.len(),
            plan_addressable(rs),
            regions_error(rs.subrange(0, k as int)) is None,
            regions@.len() == k,
            forall|i: int| 0 <= i < k ==> #[trigger] region_view(regions@[i]) == mapped_region(rs, i, id),
            next_frame == cap64(frame_base(id) + pages_where(rs.subrange(0, k as int), any_perm())),
            total_pages == cap(pages_where(rs.subrange(0, k as int), any_perm())),
            executable_pages == cap(pages_where(rs.subrange(0, k as int), exec_perm())),
            writable_pages == cap(pages_where(rs.subrange(0, k as int), writable_perm())),
            read_only_pages == cap(pages_where(rs.subrange(0, k as int), read_only_perm())),
            copied_bytes == cap(plan_bytes(rs.subrange(0, k as int), true)),
            zero_filled_bytes == cap(plan_bytes(rs.subrange(0, k as int), false)),
        decreases rs.len() - k,
    {
        let region = &plan.regions[k];
        let ghost pre = rs.subrange(0, k as int);
        let ghost pre1 = rs.subrange(0, k as int + 1);
        assert(pre1.drop_last() =~= pre);
        assert(pre1.last() == rs[k as int]);
        assert(*region == rs[k as int]);
        if region.permissions.writable() && region.permissions.executable() {
            proof {
                assert(region_error(rs[k as int]) == Some(MappingStubError::UnsafePermissions));
                assert(regions_error(pre1) == Some(MappingStubError::UnsafePermissions));
                lemma_regions_error_sticks(rs, k as int + 1);
            }
            return Err(MappingStubError::UnsafePermissions);
        }
        let (mapped, nf) = match map_region(region, next_frame) {
            Ok(x) => x,
            Err(e) => {
                proof {
                    lemma_regions_error_sticks(rs, k as int + 1);
                }
                return Err(e);
            },
        };
        proof {
            lemma_prefix_step(rs, k as int);
            lemma_pages_where_nonneg(pre, any_perm());
            lemma_region_pages_cap(rs[k as int], frame_base(id) + pages_where(pre, any_perm()));
        }
        next_frame = nf;
        let n = region.page_count;
        total_pages = sat_add_usize(total_pages, n);
        if region.permissions.executable() {
            executable_pages = sat_add_usize(executable_pages, n);
        } else if region.permissions.writable() {
            writable_pages = sat_add_usize(writable_pages, n);
        } else {
            read_only_pages = sat_add_usize(read_only_pages, n);
        }
        let c_exec: usize = action_total(region, true);
        let z_exec: usize = action_total(region, false);
        copied_bytes = sat_add_usize(copied_bytes, c_exec);
        zero_filled_bytes = sat_add_usize(zero_filled_bytes, z_exec);
        let ghost old_regions = regions@;
        regions.push(mapped);
        assert forall|i: int| 0 <= i < k + 1 implies #[trigger] region_view(regions@[i]) == mapped_region(rs, i, id) by {
            if i < k {
                assert(regions@[i] == old_regions[i]);
                assert(rs.subrange(0, i) == rs.subrange(0, i));
            }
        }
        k = k + 1;
    }
    assert(rs.subrange(0, k as int) =~= rs);
    let image = MappedImage {
        id,
        image_name: plan.image_name.clone(),
        source_path: plan.source_path.clone(),
        address_space_id,
        regions,
        total_pages,
        executable_pages,
        writable_pages,
        read_only_pages,
        copied_bytes,
        zero_filled_bytes,
        owner,
        state: MappingState::MappedStub,
    };
    assert(image_view(image).regions =~= Seq::new(rs.len(), |i: int| mapped_region(rs, i, id)));
    Ok(image)
}

/// Saturated byte count of the region's actions of one kind.
fn action_total(region: &LoadRegion, copy: bool) -> (r: usize)
    ensures
        r == cap(action_bytes(region.actions@, copy)),
{
    let mut total: usize = 0;
    let mut j: usize = 0;
    while j < region.actions.len()
        invariant
            j <= region.actions@.len(),
            total == cap(action_bytes(region.actions@.subrange(0, j as int), copy)),
        decreases region.actions@.len() - j,
    {
        assert(region.actions@.subrange(0, j as int + 1).drop_last() =~= region.actions@.subrange(0, j as int));
        let add = match region.actions[j] {
            LoadAction::Copy { len, .. } => if copy {
                len
            } else {
                0
            },
            LoadAction::ZeroFill { len, .. } => if copy {
                0
            } else {
                len
            },
        };
        assert(region.actions@.subrange(0, j as int + 1).last() == region.actions@[j as int]);
        proof {
            lemma_action_bytes_nonneg(region.actions@.subrange(0, j as int), copy);
        }
        total = sat_add_usize(total, add);
        j = j + 1;
    }
    assert(region.actions@.subrange(0, j as int) =~= region.actions@);
    total
}

// ───────────────────────────── the registry ─────────────────────────────

fn copy_pages(v: &Vec<MappedPage>) -> (r: Vec<MappedPage>)
    ensures
        r@ == v@,
{
    let mut out: Vec<MappedPage> = Vec::new();
    let mut i: usize = 0;
    while i < v.len()
        invariant
            i <= v@.len(),
            out@ == v@.subrange(0, i as int),
        decreases v@.len() - i,
    {
        out.push(v[i]);
        assert(out@ =~= v@.subrange(0, i as int + 1));
        i = i + 1;
    }
    assert(v@.subrange(0, i as int) =~= v@);
    out
}

fn copy_actions(v: &Vec<MappingActionResult>) -> (r: Vec<MappingActionResult>)
    ensures
        r@ == v@,
{
    let mut out: Vec<MappingActionResult> = Vec::new();
    let mut i: usize = 0;
    while i < v.len()
        invariant
            i <= v@.len(),
            out@ == v@.subrange(0, i as int),
        decreases v@.len() - i,
    {
        out.push(v[i]);
        assert(out@ =~= v@.subrange(0, i as int + 1));
        i = i + 1;
    }
    assert(v@.subrange(0, i as int) =~= v@);
    out
}

impl MappedRegion {
    /// A copy with the same contents.
    pub fn duplicate(&self) -> (r: MappedRegion)
        ensures
            region_view(r) == region_view(*self),
    {
        MappedRegion {
            start: self.start,
            size: self.size,
            permissions: self.permissions,
            pages: copy_pages(&self.pages),
            actions: copy_actions(&self.actions),
        }
    }
}

impl MappedImage {
    /// A copy with the same contents.
    pub fn duplicate(&self) -> (r: MappedImage)
        ensures
            image_view(r) == image_view(*self),
    {
        let mut regions: Vec<MappedRegion> = Vec::new();
        let mut i: usize = 0;
        while i < self.regions.len()
            invariant
                i <= self.regions@.len(),
                regions@.len() == i,
                forall|j: int| 0 <= j < i ==> #[trigger] region_view(regions@[j]) == region_view(self.regions@[j]),
            decreases self.regions@.len() - i,
        {
            regions.push(self.regions[i].duplicate());
            i = i + 1;
        }
        let r = MappedImage {
            id: self.id,
            image_name: self.image_name.clone(),
            source_path: self.source_path.clone(),
            address_space_id: self.address_space_id,
            regions,
            total_pages: self.total_pages,
            executable_pages: self.executable_pages,
            writable_pages: self.writable_pages,
            read_only_pages: self.read_only_pages,
            copied_bytes: self.copied_bytes,
            zero_filled_bytes: self.zero_filled_bytes,
            owner: self.owner,
            state: self.state,
        };
        assert(image_view(r).regions =~= image_view(*self).regions);
        r
    }
}

pub open spec fn pages_of() -> spec_fn(MappedImageView) -> usize {
    |m: MappedImageView| m.total_pages
}

pub open spec fn copied_of() -> spec_fn(MappedImageView) -> usize {
    |m: MappedImageView| m.copied_bytes
}

pub open spec fn zeroed_of() -> spec_fn(MappedImageView) -> usize {
    |m: MappedImageView| m.zero_filled_bytes
}

pub open spec fn sum_field(images: Seq<MappedImageView>, f: spec_fn(MappedImageView) -> usize) -> int
    decreases images.len(),
{
    if images.len() == 0 {
        0
    } else {
        sum_field(images.drop_last(), f) + f(images.last()) as int
    }
}

/// The registry of mapped images.
pub struct MappingRegistry {
    next_id: u64,
    mappings: Vec<MappedImage>,
}

impl MappingRegistry {
    /// The registered images, oldest first.
    pub closed spec fn images(&self) -> Seq<MappedImageView> {
        self.mappings@.map_values(|m: MappedImage| image_view(m))
    }

    /// The id the next registration uses.
    pub closed spec fn next_id(&self) -> u64 {
        self.next_id
    }

    /// Ids are handed out in increasing order from 1: each registered id is below
    /// the next one, and later images have larger ids. Only once the counter has
    /// stuck at `u64::MAX` can an id repeat, and then only that id.
    pub closed spec fn wf(&self) -> bool {
        let ims = self.images();
        &&& self.next_id >= 1
        &&& forall|j: int|
            0 <= j < ims.len() ==> 1 <= (#[trigger] ims[j]).id.0 <= self.next_id && (ims[j].id.0 == self.next_id
                ==> self.next_id == u64::MAX)
        &&& forall|i: int, j: int|
            0 <= i < j < ims.len() ==> (#[trigger] ims[i]).id.0 < (#[trigger] ims[j]).id.0 || ims[j].id.0 == u64::MAX
    }

    /// While the id counter has not reached `u64::MAX`, every registered id is below
    /// it and the ids strictly increase in registration order.
    pub proof fn lemma_ids(&self)
        requires
            self.wf(),
        ensures
            self.next_id() >= 1,
            self.next_id() < u64::MAX ==> forall|j: int|
                0 <= j < self.images().len() ==> 1 <= (#[trigger] self.images()[j]).id.0 < self.next_id(),
            self.next_id() < u64::MAX ==> forall|i: int, j: int|
                0 <= i < j < self.images().len() ==> (#[trigger] self.images()[i]).id.0
                    < (#[trigger] self.images()[j]).id.0,
    {
    }

    pub fn new() -> (r: Self)
        ensures
            r.wf(),
            r.images() == Seq::<MappedImageView>::empty(),
            r.next_id() == 1,
    {
        let r = MappingRegistry { next_id: 1, mappings: Vec::new() };
        assert(r.images() =~= Seq::<MappedImageView>::empty());
        r
    }
}

/// Maps `plan` under the next mapping id and records the image; the id is used up
/// even when mapping fails.
pub fn register_mapping(
    registry: &mut MappingRegistry,
    owner: Credentials,
    address_space_id: AddressSpaceId,
    plan: &LoadPlan,
) -> (r: Result<MappedImage, MappingStubError>)
    requires
        old(registry).wf(),
        plan.total_pages + plan.stack_pages <= usize::MAX,
        plan_addressable(plan.regions@),
    ensures
        final(registry).wf(),
        old(registry).images().len() >= MAX_MAPPED_IMAGES ==> r == Err::<MappedImage, MappingStubError>(
            MappingStubError::RegistryFull,
        ) && final(registry).images() == old(registry).images() && final(registry).next_id() == old(
            registry,
        ).next_id(),
        old(registry).images().len() < MAX_MAPPED_IMAGES ==> {
            let id = MappingId(old(registry).next_id());
            &&& final(registry).next_id() == if old(registry).next_id() == u64::MAX {
                u64::MAX
            } else {
                (old(registry).next_id() + 1) as u64
            }
            &&& match map_result(owner, id, address_space_id, *plan) {
                Ok(v) => r is Ok && image_view(r->Ok_0) == v && r->Ok_0.id == id && final(registry).images() == old(
                    registry,
                ).images().push(v),
                Err(e) => r == Err::<MappedImage, MappingStubError>(e) && final(registry).images() == old(
                    registry,
                ).images(),
            }
        },
{
    if registry.mappings.len() >= MAX_MAPPED_IMAGES {
        return Err(MappingStubError::RegistryFull);
    }
    let id = MappingId::from_raw(registry.next_id);
    registry.next_id = registry.next_id.saturating_add(1);
    let mapped = match map_load_plan(owner, id, address_space_id, plan) {
        Ok(m) => m,
        Err(e) => return Err(e),
    };
    let ghost before = registry.images();
    registry.mappings.push(mapped.duplicate());
    assert(registry.images() =~= before.push(image_view(mapped)));
    assert(registry.images()[before.len() as int].id == id);
    assert forall|j: int| 0 <= j < before.len() implies #[trigger] registry.images()[j] == before[j] by {}
    Ok(mapped)
}

/// Copies of all registered images.
pub fn list_mappings(registry: &MappingRegistry) -> (r: Vec<MappedImage>)
    ensures
        r@.map_values(|m: MappedImage| image_view(m)) == registry.images(),
{
    let mut out: Vec<MappedImage> = Vec::new();
    let mut i: usize = 0;
    while i < registry.mappings.len()
        invariant
            i <= registry.mappings@.len(),
            out@.len() == i,
            registry.images().len() == registry.mappings@.len(),
            out@.map_values(|m: MappedImage| image_view(m)) == registry.images().subrange(0, i as int),
        decreases registry.mappings@.len() - i,
    {
        let ghost before = out@;
        let d = registry.mappings[i].duplicate();
        out.push(d);
        assert(out@ == before.push(d));
        assert(registry.images()[i as int] == image_view(registry.mappings@[i as int]));
        assert forall|j: int| 0 <= j < i + 1 implies image_view(#[trigger] out@[j]) == registry.images()[j] by {
            if j < i {
                assert(out@[j] == before[j]);
                assert(image_view(before[j]) == before.map_values(|m: MappedImage| image_view(m))[j]);
            }
        }
        assert(out@.map_values(|m: MappedImage| image_view(m)) =~= registry.images().subrange(0, i as int + 1));
        i = i + 1;
    }
    assert(registry.images().subrange(0, i as int) =~= registry.images());
    out
}

/// The first registered image with id `id`.
pub fn get_mapping(registry: &MappingRegistry, id: MappingId) -> (r: Option<MappedImage>)
    ensures
        match r {
            Some(m) => exists|i: int|
                0 <= i < registry.images().len() && (#[trigger] registry.images()[i]).id == id && image_view(m)
                    == registry.images()[i] && forall|j: int| 0 <= j < i ==> (#[trigger] registry.images()[j]).id != id,
            None => forall|i: int| 0 <= i < registry.images().len() ==> (#[trigger] registry.images()[i]).id != id,
        },
{
    let mut i: usize = 0;
    while i < registry.mappings.len()
        invariant
            i <= registry.mappings@.len(),
            forall|j: int| 0 <= j < i ==> (#[trigger] registry.images()[j]).id != id,
        decreases registry.mappings@.len() - i,
    {
        assert(registry.images()[i as int] == image_view(registry.mappings@[i as int]));
        if registry.mappings[i].id == id {
            let m = registry.mappings[i].duplicate();
            assert(registry.images()[i as int].id == id);
            return Some(m);
        }
        i = i + 1;
    }
    None
}

/// Totals over the registered images.
pub fn status(registry: &MappingRegistry) -> (r: MappingRegistryStatus)
    requires
        sum_field(registry.images(), pages_of()) <= usize::MAX,
        sum_field(registry.images(), copied_of()) <= usize::MAX,
        sum_field(registry.images(), zeroed_of()) <= usize::MAX,
    ensures
        r == (MappingRegistryStatus {
            mapped_count: registry.images().len() as usize,
            total_pages: sum_field(registry.images(), pages_of()) as usize,
            copied_bytes: sum_field(registry.images(), copied_of()) as usize,
            zero_filled_bytes: sum_field(registry.images(), zeroed_of()) as usize,
        }),
{
    let ghost ims = registry.images();
    let mut pages: usize = 0;
    let mut copied: usize = 0;
    let mut zeroed: usize = 0;
    let mut i: usize = 0;
    proof {
        lemma_sum_field_prefix(ims, pages_of());
        lemma_sum_field_prefix(ims, copied_of());
        lemma_sum_field_prefix(ims, zeroed_of());
    }
    while i < registry.mappings.len()
        invariant
            ims == registry.images(),
            i <= ims.len(),
            sum_field(ims, pages_of()) <= usize::MAX,
            sum_field(ims, copied_of()) <= usize::MAX,
            sum_field(ims, zeroed_of()) <= usize::MAX,
            forall|k: int| 0 <= k <= ims.len() ==> #[trigger] sum_field(ims.subrange(0, k), pages_of()) <= sum_field(ims, pages_of()),
            forall|k: int| 0 <= k <= ims.len() ==> #[trigger] sum_field(ims.subrange(0, k), copied_of()) <= sum_field(ims, copied_of()),
            forall|k: int| 0 <= k <= ims.len() ==> #[trigger] sum_field(ims.subrange(0, k), zeroed_of()) <= sum_field(ims, zeroed_of()),
            pages == sum_field(ims.subrange(0, i as int), pages_of()),
            copied == sum_field(ims.subrange(0, i as int), copied_of()),
            zeroed == sum_field(ims.subrange(0, i as int), zeroed_of()),
        decreases ims.len() - i,
    {
        let ghost pre1 = ims.subrange(0, i as int + 1);
        assert(pre1.drop_last() =~= ims.subrange(0, i as int));
        assert(pre1.last() == image_view(registry.mappings@[i as int]));
        assert(sum_field(pre1, pages_of()) <= usize::MAX);
        assert(sum_field(pre1, copied_of()) <= usize::MAX);
        assert(sum_field(pre1, zeroed_of()) <= usize::MAX);
        let m = &registry.mappings[i];
        pages = pages + m.total_pages;
        copied = copied + m.copied_bytes;
        zeroed = zeroed + m.zero_filled_bytes;
        i = i + 1;
    }
    assert(ims.subrange(0, i as int) =~= ims);
    MappingRegistryStatus {
        mapped_count: registry.mappings.len(),
        total_pages: pages,
        copied_bytes: copied,
        zero_filled_bytes: zeroed,
    }
}

/// Every prefix sums to at most the whole.
proof fn lemma_sum_field_prefix(ims: Seq<MappedImageView>, f: spec_fn(MappedImageView) -> usize)
    ensures
        forall|k: int| 0 <= k <= ims.len() ==> #[trigger] sum_field(ims.subrange(0, k), f) <= sum_field(ims, f),
        sum_field(ims, f) >= 0,
    decreases ims.len(),
{
    if ims.len() > 0 {
        let d = ims.drop_last();
        lemma_sum_field_prefix(d, f);
        assert forall|k: int| 0 <= k <= ims.len() implies #[trigger] sum_field(ims.subrange(0, k), f) <= sum_field(ims, f) by {
            if k == ims.len() {
                assert(ims.subrange(0, k) =~= ims);
            } else {
                assert(ims.subrange(0, k) =~= d.subrange(0, k));
            }
        }
    } else {
        assert forall|k: int| 0 <= k <= ims.len() implies #[trigger] sum_field(ims.subrange(0, k), f) <= sum_field(ims, f) by {
            assert(ims.subrange(0, k) =~= ims);
        }
    }
}

proof fn lemma_prefix_pages_monotone(rs: Seq<LoadRegion>, a: int, b: int)
    requires
        0 <= a <= b <= rs.len(),
    ensures
        pages_where(rs.subrange(0, a), any_perm()) <= pages_where(rs.subrange(0, b), any_perm()),
    decreases b - a,
{
    if a < b {
        lemma_prefix_step(rs, b - 1);
        lemma_prefix_pages_monotone(rs, a, b - 1);
    }
}

/// Page `i` of region `k` of the mapped image has frame token number
/// `frame_base(id)` plus the pages of the earlier regions plus `i`, below the end of
/// the mapping's tokens.
proof fn lemma_page_token(owner: Credentials, id: MappingId, address_space_id: AddressSpaceId, plan: LoadPlan, k: int, i: int)
    requires
        frame_base(id) + pages_where(plan.regions@, any_perm()) <= u64::MAX,
        0 <= k < plan.regions@.len(),
        0 <= i < plan.regions@[k].page_count,
    ensures
        ({
            let rs = plan.regions@;
            let n = pages_where(rs.subrange(0, k), any_perm()) + i;
            &&& mapped_image(owner, id, address_space_id, plan).regions[k].pages[i].frame.raw() == frame_base(id) + n
            &&& pages_where(rs.subrange(0, k), any_perm()) + i < pages_where(rs.subrange(0, k + 1), any_perm())
            &&& pages_where(rs.subrange(0, k + 1), any_perm()) <= pages_where(rs, any_perm())
            &&& n >= 0
        }),
{
    let rs = plan.regions@;
    lemma_prefix_step(rs, k);
    lemma_prefix_pages_monotone(rs, k + 1, rs.len() as int);
    assert(rs.subrange(0, rs.len() as int) =~= rs);
    let first = frame_base(id) + pages_where(rs.subrange(0, k), any_perm());
    let img = mapped_image(owner, id, address_space_id, plan);
    assert(img.regions[k] == mapped_region(rs, k, id));
    assert(img.regions[k].pages == region_pages(rs[k], first));
    assert(img.regions[k].pages[i].frame == FrameToken(cap64(first + i)));
}

/// Every page of a mapped image has a frame token of its own, as long as the tokens
/// of the mapping (its first token plus one per page) stay within `u64`.
pub proof fn law_mapped_pages_have_distinct_frames(
    owner: Credentials,
    id: MappingId,
    address_space_id: AddressSpaceId,
    plan: LoadPlan,
    k1: int,
    i1: int,
    k2: int,
    i2: int,
)
    requires
        frame_base(id) + pages_where(plan.regions@, any_perm()) <= u64::MAX,
        0 <= k1 < plan.regions@.len(),
        0 <= i1 < plan.regions@[k1].page_count,
        0 <= k2 < plan.regions@.len(),
        0 <= i2 < plan.regions@[k2].page_count,
        k1 != k2 || i1 != i2,
    ensures
        mapped_image(owner, id, address_space_id, plan).regions[k1].pages[i1].frame != mapped_image(
            owner,
            id,
            address_space_id,
            plan,
        ).regions[k2].pages[i2].frame,
{
    let rs = plan.regions@;
    lemma_page_token(owner, id, address_space_id, plan, k1, i1);
    lemma_page_token(owner, id, address_space_id, plan, k2, i2);
    if k1 < k2 {
        lemma_prefix_pages_monotone(rs, k1 + 1, k2);
    } else if k2 < k1 {
        lemma_prefix_pages_monotone(rs, k2 + 1, k1);
    }
}

} // verus!
