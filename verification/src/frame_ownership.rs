//! Ownership bookkeeping for a bounded set of physical frames.

use vstd::prelude::*;

verus! {

pub const MAX_TRACKED_FRAMES: usize = 512;
pub const PAGE_SIZE: u64 = 4096;

/// Token naming one kept frame.
#[derive(Debug, Clone, Copy, PartialEq, Eq, Structural)]
pub struct OwnedFrameToken(u64);

impl OwnedFrameToken {
    pub closed spec fn raw(self) -> u64 {
        self.0
    }

    pub fn from_raw(raw: u64) -> (r: Self)
        ensures
            r.raw() == raw,
    {
        OwnedFrameToken(raw)
    }

    pub fn as_u64(self) -> (r: u64)
        ensures
            r == self.raw(),
    {
        self.0
    }
}

#[derive(Debug, Clone, Copy, PartialEq, Eq, Structural)]
pub enum FrameOwner {
    Kernel,
    Image,
    PageTable,
    Test,
}

#[derive(Debug, Clone, Copy, PartialEq, Eq, Structural)]
pub struct OwnedFrame {
    pub token: OwnedFrameToken,
    pub start_address: u64,
    pub owner: FrameOwner,
}

#[derive(Debug, Clone, Copy, PartialEq, Eq, Structural)]
pub enum FrameOwnershipError {
    AlreadyInitialized,
    NotInitialized,
    Exhausted,
    UnknownFrame,
    AlreadyReleased,
}

#[derive(Debug, Clone, Copy, PartialEq, Eq, Structural)]
pub struct FrameOwnershipStatus {
    pub initialized: bool,
    pub tracked_frames: usize,
    pub available_frames: usize,
    pub allocated_frames: usize,
    pub allocation_count: u64,
    pub release_count: u64,
    pub failed_allocation_count: u64,
}

/// One kept frame: its token, its address and who owns it (`None` when free).
#[derive(Debug, Clone, Copy, PartialEq, Eq, Structural)]
pub struct FrameRecord {
    pub token: OwnedFrameToken,
    pub start_address: u64,
    pub owner: Option<FrameOwner>,
}

/// Index of the first free record.
pub open spec fn first_free(records: Seq<FrameRecord>) -> Option<int>
    decreases records.len(),
{
    if records.len() == 0 {
        None
    } else {
        match first_free(records.drop_last()) {
            Some(i) => Some(i),
            None => if records.last().owner is None {
                Some(records.len() - 1)
            } else {
                None
            },
        }
    }
}

/// Number of records that have an owner.
pub open spec fn allocated_count(records: Seq<FrameRecord>) -> nat
    decreases records.len(),
{
    if records.len() == 0 {
        0
    } else {
        allocated_count(records.drop_last()) + if records.last().owner is Some {
            1nat
        } else {
            0nat
        }
    }
}

pub open spec fn sat_inc(x: u64) -> u64 {
    if x == u64::MAX {
        x
    } else {
        (x + 1) as u64
    }
}

/// Registry of the frames handed to the kernel after heap initialisation.
pub struct FrameRegistry {
    initialized: bool,
    records: Vec<FrameRecord>,
    next_token: u64,
    allocation_count: u64,
    release_count: u64,
    failed_allocation_count: u64,
}

impl FrameRegistry {
    pub closed spec fn is_initialized(&self) -> bool {
        self.initialized
    }

    /// The kept frames, in address-list order.
    pub closed spec fn records(&self) -> Seq<FrameRecord> {
        self.records@
    }

    pub closed spec fn allocations(&self) -> u64 {
        self.allocation_count
    }

    pub closed spec fn releases(&self) -> u64 {
        self.release_count
    }

    pub closed spec fn failed_allocations(&self) -> u64 {
        self.failed_allocation_count
    }

    /// Tokens are handed out as 1, 2, 3, ... in record order.
    pub closed spec fn wf(&self) -> bool {
        &&& self.records@.len() <= MAX_TRACKED_FRAMES
        &&& !self.initialized ==> self.records@.len() == 0 && self.next_token == 1
        &&& self.next_token == self.records@.len() + 1
        &&& forall|i: int| 0 <= i < self.records@.len() ==> #[trigger] self.records@[i].token.raw() == i + 1
        &&& self.allocation_count == u64::MAX || self.allocation_count == self.release_count + allocated_count(
            self.records@,
        )
    }

    /// In a valid registry record `j` carries token `j + 1` (so tokens are pairwise
    /// distinct), at most `MAX_TRACKED_FRAMES` frames are kept, none before
    /// initialisation, and, while the allocation counter has not saturated, the
    /// owned frames number the allocations less the releases.
    pub proof fn lemma_registry_facts(&self)
        requires
            self.wf(),
        ensures
            forall|j: int| 0 <= j < self.records().len() ==> #[trigger] self.records()[j].token.raw() == j + 1,
            forall|i: int, j: int|
                0 <= i < j < self.records().len() ==> (#[trigger] self.records()[i]).token != (#[trigger] self.records()[j]).token,
            self.records().len() <= MAX_TRACKED_FRAMES,
            !self.is_initialized() ==> self.records().len() == 0,
            self.allocations() < u64::MAX ==> allocated_count(self.records()) == self.allocations() - self.releases(),
    {
        assert forall|i: int, j: int| 0 <= i < j < self.records().len() implies (#[trigger] self.records()[i]).token
            != (#[trigger] self.records()[j]).token by {
            assert(self.records()[i].token.raw() == i + 1);
            assert(self.records()[j].token.raw() == j + 1);
        }
    }

    pub fn new() -> (r: Self)
        ensures
            r.wf(),
            !r.is_initialized(),
            r.records() == Seq::<FrameRecord>::empty(),
            r.allocations() == 0 && r.releases() == 0 && r.failed_allocations() == 0,
    {
        FrameRegistry {
            initialized: false,
            records: Vec::new(),
            next_token: 1,
            allocation_count: 0,
            release_count: 0,
            failed_allocation_count: 0,
        }
    }

    /// Starts tracking the first `MAX_TRACKED_FRAMES` of `addresses`, all free.
    pub fn init_from_addresses(&mut self, addresses: &[u64]) -> (r: Result<(), FrameOwnershipError>)
        requires
            old(self).wf(),
        ensures
            final(self).wf(),
            old(self).is_initialized() ==> r == Err::<(), FrameOwnershipError>(
                FrameOwnershipError::AlreadyInitialized,
            ) && *final(self) == *old(self),
            !old(self).is_initialized() ==> r == Ok::<(), FrameOwnershipError>(()) && final(self).is_initialized()
                && final(self).records().len() == if addresses@.len() < MAX_TRACKED_FRAMES {
                addresses@.len()
            } else {
                MAX_TRACKED_FRAMES as nat
            } && (forall|i: int|
                0 <= i < final(self).records().len() ==> #[trigger] final(self).records()[i].start_address
                    == addresses@[i] && final(self).records()[i].owner is None)
                && final(self).allocations() == old(self).allocations() && final(self).releases()
                == old(self).releases() && final(self).failed_allocations() == old(
                self,
            ).failed_allocations(),
    {
        if self.initialized {
            return Err(FrameOwnershipError::AlreadyInitialized);
        }
        self.records.clear();
        assert(allocated_count(old(self).records@) == 0);
        let mut i: usize = 0;
        while i < addresses.len() && i < MAX_TRACKED_FRAMES
            invariant
                i <= addresses@.len(),
                i <= MAX_TRACKED_FRAMES,
                !self.initialized,
                self.records@.len() == i,
                self.next_token == i + 1,
                self.allocation_count == old(self).allocation_count,
                self.release_count == old(self).release_count,
                self.failed_allocation_count == old(self).failed_allocation_count,
                self.allocation_count == u64::MAX || self.allocation_count == self.release_count,
                allocated_count(self.records@) == 0,
                forall|j: int|
                    0 <= j < i ==> #[trigger] self.records@[j].token.raw() == j + 1
                        && self.records@[j].start_address == addresses@[j]
                        && self.records@[j].owner is None,
            decreases addresses@.len() - i,
        {
            let token = OwnedFrameToken::from_raw(self.next_token);
            self.next_token = self.next_token + 1;
            let ghost before = self.records@;
            self.records.push(FrameRecord { token, start_address: addresses[i], owner: None });
            assert(self.records@.drop_last() =~= before);
            assert(forall|j: int| 0 <= j < i ==> self.records@[j] == before[j]);
            assert(self.records@[i as int].token.raw() == i + 1);
            assert(self.records@[i as int].start_address == addresses@[i as int]);
            assert(self.records@[i as int].owner is None);
            assert forall|j: int| 0 <= j < i + 1 implies #[trigger] self.records@[j].token.raw() == j + 1
                && self.records@[j].start_address == addresses@[j] && self.records@[j].owner is None by {
                if j < i {
                    assert(self.records@[j] == before[j]);
                }
            }
            i = i + 1;
        }
        self.initialized = true;
        assert forall|j: int| 0 <= j < self.records@.len() implies #[trigger] self.records@[j].start_address
            == addresses@[j] && self.records@[j].owner is None by {
            assert(self.records@[j].token.raw() == j + 1);
        }
        Ok(())
    }

    fn find_free(&self) -> (r: Option<usize>)
        ensures
            match r {
                Some(i) => first_free(self.records@) == Some(i as int),
                None => first_free(self.records@) is None,
            },
    {
        let mut i: usize = 0;
        while i < self.records.len()
            invariant
                i <= self.records@.len(),
                first_free(self.records@.subrange(0, i as int)) is None,
            decreases self.records@.len() - i,
        {
            assert(self.records@.subrange(0, i as int + 1).drop_last() =~= self.records@.subrange(0, i as int));
            if self.records[i].owner.is_none() {
                proof {
                    lemma_first_free_prefix(self.records@, i as int + 1);
                }
                return Some(i);
            }
            i = i + 1;
        }
        assert(self.records@.subrange(0, i as int) =~= self.records@);
        None
    }

    /// Hands the first free frame to `owner`.
    pub fn allocate(&mut self, owner: FrameOwner) -> (r: Result<OwnedFrame, FrameOwnershipError>)
        requires
            old(self).wf(),
        ensures
            final(self).wf(),
            final(self).is_initialized() == old(self).is_initialized(),
            final(self).releases() == old(self).releases(),
            !old(self).is_initialized() ==> r == Err::<OwnedFrame, FrameOwnershipError>(
                FrameOwnershipError::NotInitialized,
            ) && *final(self) == *old(self),
            old(self).is_initialized() ==> match first_free(old(self).records()) {
                None => r == Err::<OwnedFrame, FrameOwnershipError>(FrameOwnershipError::Exhausted)
                    && final(self).records() == old(self).records() && final(self).allocations()
                    == old(self).allocations() && final(self).failed_allocations() == sat_inc(
                    old(self).failed_allocations(),
                ),
                Some(i) => r == Ok::<OwnedFrame, FrameOwnershipError>(
                    OwnedFrame {
                        token: old(self).records()[i].token,
                        start_address: old(self).records()[i].start_address,
                        owner,
                    },
                ) && final(self).records() == old(self).records().update(
                    i,
                    FrameRecord { owner: Some(owner), ..old(self).records()[i] },
                ) && final(self).allocations() == sat_inc(old(self).allocations())
                    && final(self).failed_allocations() == old(self).failed_allocations(),
            },
    {
        if !self.initialized {
            return Err(FrameOwnershipError::NotInitialized);
        }
        match self.find_free() {
            None => {
                self.failed_allocation_count = self.failed_allocation_count.saturating_add(1);
                Err(FrameOwnershipError::Exhausted)
            },
            Some(i) => {
                proof {
                    lemma_first_free_bounds(self.records@);
                }
                let record = self.records[i];
                proof {
                    lemma_allocated_count_update(self.records@, i as int, FrameRecord { owner: Some(owner), ..record });
                }
                self.records.set(i, FrameRecord { owner: Some(owner), ..record });
                self.allocation_count = self.allocation_count.saturating_add(1);
                Ok(OwnedFrame { token: record.token, start_address: record.start_address, owner })
            },
        }
    }

    /// Returns the frame named by `token` to the free pool.
    pub fn release(&mut self, token: OwnedFrameToken) -> (r: Result<(), FrameOwnershipError>)
        requires
            old(self).wf(),
        ensures
            final(self).wf(),
            final(self).is_initialized() == old(self).is_initialized(),
            final(self).allocations() == old(self).allocations(),
            final(self).failed_allocations() == old(self).failed_allocations(),
            !old(self).is_initialized() ==> r == Err::<(), FrameOwnershipError>(
                FrameOwnershipError::NotInitialized,
            ) && *final(self) == *old(self),
            old(self).is_initialized() ==> if 1 <= token.raw() <= old(self).records().len() {
                let i = token.raw() - 1;
                if old(self).records()[i].owner is None {
                    r == Err::<(), FrameOwnershipError>(FrameOwnershipError::AlreadyReleased)
                        && *final(self) == *old(self)
                } else {
                    r == Ok::<(), FrameOwnershipError>(()) && final(self).records() == old(
                        self,
                    ).records().update(i, FrameRecord { owner: None, ..old(self).records()[i] })
                        && final(self).releases() == sat_inc(old(self).releases())
                }
            } else {
                r == Err::<(), FrameOwnershipError>(FrameOwnershipError::UnknownFrame) && *final(self)
                    == *old(self)
            },
    {
        if !self.initialized {
            return Err(FrameOwnershipError::NotInitialized);
        }
        let mut i: usize = 0;
        while i < self.records.len()
            invariant
                self.wf(),
                *self == *old(self),
                self.initialized,
                i <= self.records@.len(),
                forall|j: int| 0 <= j < i ==> #[trigger] self.records@[j].token != token,
            decreases self.records@.len() - i,
        {
            if self.records[i].token == token {
                let record = self.records[i];
                if record.owner.is_none() {
                    return Err(FrameOwnershipError::AlreadyReleased);
                }
                proof {
                    lemma_allocated_count_update(self.records@, i as int, FrameRecord { owner: None, ..record });
                }
                self.records.set(i, FrameRecord { owner: None, ..record });
                self.release_count = self.release_count.saturating_add(1);
                return Ok(());
            }
            i = i + 1;
        }
        proof {
            if 1 <= token.raw() <= self.records@.len() {
                assert(self.records@[token.raw() - 1].token.raw() == token.raw());
                assert(self.records@[token.raw() - 1].token == token);
            }
        }
        Err(FrameOwnershipError::UnknownFrame)
    }

    /// Counts of kept, free and owned frames, and the operation counters.
    pub fn status(&self) -> (r: FrameOwnershipStatus)
        requires
            self.wf(),
        ensures
            r == (FrameOwnershipStatus {
                initialized: self.is_initialized(),
                tracked_frames: self.records().len() as usize,
                available_frames: (self.records().len() - allocated_count(self.records())) as usize,
                allocated_frames: allocated_count(self.records()) as usize,
                allocation_count: self.allocations(),
                release_count: self.releases(),
                failed_allocation_count: self.failed_allocations(),
            }),
    {
        let mut allocated: usize = 0;
        let mut i: usize = 0;
        while i < self.records.len()
            invariant
                i <= self.records@.len(),
                self.records@.len() <= MAX_TRACKED_FRAMES,
                allocated == allocated_count(self.records@.subrange(0, i as int)),
                allocated <= i,
            decreases self.records@.len() - i,
        {
            assert(self.records@.subrange(0, i as int + 1).drop_last() =~= self.records@.subrange(0, i as int));
            if self.records[i].owner.is_some() {
                allocated = allocated + 1;
            }
            i = i + 1;
        }
        assert(self.records@.subrange(0, i as int) =~= self.records@);
        FrameOwnershipStatus {
            initialized: self.initialized,
            tracked_frames: self.records.len(),
            available_frames: self.records.len() - allocated,
            allocated_frames: allocated,
            allocation_count: self.allocation_count,
            release_count: self.release_count,
            failed_allocation_count: self.failed_allocation_count,
        }
    }
}

proof fn lemma_first_free_prefix(records: Seq<FrameRecord>, k: int)
    requires
        0 <= k <= records.len(),
        first_free(records.subrange(0, k)) is Some,
    ensures
        first_free(records) == first_free(records.subrange(0, k)),
    decreases records.len() - k,
{
    if k < records.len() {
        assert(records.subrange(0, k + 1).drop_last() =~= records.subrange(0, k));
        lemma_first_free_prefix(records, k + 1);
    } else {
        assert(records.subrange(0, k) =~= records);
    }
}

pub proof fn lemma_first_free_bounds(records: Seq<FrameRecord>)
    ensures
        match first_free(records) {
            Some(i) => 0 <= i < records.len() && records[i].owner is None && forall|j: int|
                0 <= j < i ==> #[trigger] records[j].owner is Some,
            None => forall|j: int| 0 <= j < records.len() ==> #[trigger] records[j].owner is Some,
        },
    decreases records.len(),
{
    if records.len() > 0 {
        lemma_first_free_bounds(records.drop_last());
        let d = records.drop_last();
        assert forall|j: int| 0 <= j < d.len() implies d[j] == records[j] by {}
    }
}


proof fn lemma_allocated_count_bound(records: Seq<FrameRecord>)
    ensures
        allocated_count(records) <= records.len(),
    decreases records.len(),
{
    if records.len() > 0 {
        lemma_allocated_count_bound(records.drop_last());
    }
}

/// Giving an owner to a free record raises the allocated count by one; taking the owner
/// of an owned record lowers it by one.
pub proof fn lemma_allocated_count_update(records: Seq<FrameRecord>, i: int, rec: FrameRecord)
    requires
        0 <= i < records.len(),
    ensures
        allocated_count(records.update(i, rec)) + (if records[i].owner is Some { 1int } else { 0int })
            == allocated_count(records) + (if rec.owner is Some { 1int } else { 0int }),
    decreases records.len(),
{
    if i < records.len() - 1 {
        lemma_allocated_count_update(records.drop_last(), i, rec);
        assert(records.update(i, rec).drop_last() =~= records.drop_last().update(i, rec));
    } else {
        assert(records.update(i, rec).drop_last() =~= records.drop_last());
    }
}

/// Releasing the frame that an allocation handed out restores the frame table as it
/// was before the allocation.
pub proof fn law_release_undoes_allocate(records: Seq<FrameRecord>, owner: FrameOwner)
    requires
        forall|j: int| 0 <= j < records.len() ==> #[trigger] records[j].token.raw() == j + 1,
        first_free(records) is Some,
    ensures
        ({
            let i = first_free(records)->Some_0;
            let after = records.update(i, FrameRecord { owner: Some(owner), ..records[i] });
            let t = records[i].token.raw();
            &&& 1 <= t <= after.len()
            &&& after[t - 1].owner is Some
            &&& after.update(t - 1, FrameRecord { owner: None, ..after[t - 1] }) == records
            &&& allocated_count(after) == allocated_count(records) + 1
        }),
{
    lemma_first_free_bounds(records);
    let i = first_free(records)->Some_0;
    let after = records.update(i, FrameRecord { owner: Some(owner), ..records[i] });
    assert(after.update(i, FrameRecord { owner: None, ..after[i] }) =~= records);
    lemma_allocated_count_update(records, i, FrameRecord { owner: Some(owner), ..records[i] });
}

/// Every kept frame is either allocated or available.
pub proof fn law_frames_partition(records: Seq<FrameRecord>)
    ensures
        allocated_count(records) + (records.len() - allocated_count(records)) == records.len(),
        allocated_count(records) <= records.len(),
{
    lemma_allocated_count_bound(records);
}

// ─────────────────── kernel-wide frame operations ───────────────────

pub fn allocate_frame(registry: &mut FrameRegistry, owner: FrameOwner) -> (r: Result<
    OwnedFrame,
    FrameOwnershipError,
>)
    requires
        old(registry).wf(),
    ensures
        final(registry).wf(),
        final(registry).is_initialized() == old(registry).is_initialized(),
        final(registry).releases() == old(registry).releases(),
        !old(registry).is_initialized() ==> r == Err::<OwnedFrame, FrameOwnershipError>(
            FrameOwnershipError::NotInitialized,
        ) && *final(registry) == *old(registry),
        old(registry).is_initialized() ==> match first_free(old(registry).records()) {
            None => r == Err::<OwnedFrame, FrameOwnershipError>(FrameOwnershipError::Exhausted)
                && final(registry).records() == old(registry).records() && final(registry).allocations()
                == old(registry).allocations() && final(registry).failed_allocations() == sat_inc(
                old(registry).failed_allocations(),
            ),
            Some(i) => r == Ok::<OwnedFrame, FrameOwnershipError>(
                OwnedFrame {
                    token: old(registry).records()[i].token,
                    start_address: old(registry).records()[i].start_address,
                    owner,
                },
            ) && final(registry).records() == old(registry).records().update(
                i,
                FrameRecord { owner: Some(owner), ..old(registry).records()[i] },
            ) && final(registry).allocations() == sat_inc(old(registry).allocations())
                && final(registry).failed_allocations() == old(registry).failed_allocations(),
        },
{
    registry.allocate(owner)
}

pub fn release_frame(registry: &mut FrameRegistry, token: OwnedFrameToken) -> (r: Result<
    (),
    FrameOwnershipError,
>)
    requires
        old(registry).wf(),
    ensures
        final(registry).wf(),
        final(registry).is_initialized() == old(registry).is_initialized(),
        final(registry).allocations() == old(registry).allocations(),
        final(registry).failed_allocations() == old(registry).failed_allocations(),
        !old(registry).is_initialized() ==> r == Err::<(), FrameOwnershipError>(
            FrameOwnershipError::NotInitialized,
        ) && *final(registry) == *old(registry),
        old(registry).is_initialized() ==> if 1 <= token.raw() <= old(registry).records().len() {
            let i = token.raw() - 1;
            if old(registry).records()[i].owner is None {
                r == Err::<(), FrameOwnershipError>(FrameOwnershipError::AlreadyReleased)
                    && *final(registry) == *old(registry)
            } else {
                r == Ok::<(), FrameOwnershipError>(()) && final(registry).records() == old(
                    registry,
                ).records().update(i, FrameRecord { owner: None, ..old(registry).records()[i] })
                    && final(registry).releases() == sat_inc(old(registry).releases())
            }
        } else {
            r == Err::<(), FrameOwnershipError>(FrameOwnershipError::UnknownFrame) && *final(registry)
                == *old(registry)
        },
{
    registry.release(token)
}

pub fn status(registry: &FrameRegistry) -> (r: FrameOwnershipStatus)
    requires
        registry.wf(),
    ensures
        r == (FrameOwnershipStatus {
            initialized: registry.is_initialized(),
            tracked_frames: registry.records().len() as usize,
            available_frames: (registry.records().len() - allocated_count(registry.records())) as usize,
            allocated_frames: allocated_count(registry.records()) as usize,
            allocation_count: registry.allocations(),
            release_count: registry.releases(),
            failed_allocation_count: registry.failed_allocations(),
        }),
{
    registry.status()
}

/// Whether the first free frame starts on a page boundary.
pub open spec fn first_free_is_aligned(records: Seq<FrameRecord>) -> bool {
    match first_free(records) {
        Some(i) => records[i].start_address % PAGE_SIZE == 0,
        None => false,
    }
}

/// Allocates a test frame, releases it again and checks the counters moved as expected.
pub fn phase14_smoke_check(registry: &mut FrameRegistry) -> (r: bool)
    requires
        old(registry).wf(),
    ensures
        final(registry).wf(),
        r == (old(registry).is_initialized() && first_free_is_aligned(old(registry).records())
            && old(registry).releases() < u64::MAX),
        r ==> final(registry).records() == old(registry).records(),
        !(old(registry).is_initialized() && first_free(old(registry).records()) is Some) ==> *final(registry)
            == *old(registry),
        old(registry).is_initialized() && first_free(old(registry).records()) is Some ==> {
            &&& final(registry).is_initialized()
            &&& final(registry).records() == old(registry).records()
            &&& final(registry).allocations() == sat_inc(old(registry).allocations())
            &&& final(registry).releases() == sat_inc(old(registry).releases())
            &&& final(registry).failed_allocations() == old(registry).failed_allocations()
        },
{
    let before = status(registry);
    proof {
        lemma_allocated_count_bound(registry.records());
        lemma_first_free_bounds(registry.records());
        match first_free(registry.records()) {
            Some(i) => {
                let rec = FrameRecord { owner: Some(FrameOwner::Test), ..registry.records()[i] };
                lemma_allocated_count_update(registry.records(), i, rec);
                lemma_allocated_count_bound(registry.records().update(i, rec));
            },
            None => {
                lemma_all_owned_count(registry.records());
            },
        }
    }
    if !before.initialized || before.available_frames == 0 {
        return false;
    }
    let ghost recs0 = registry.records();
    let frame = match allocate_frame(registry, FrameOwner::Test) {
        Ok(f) => f,
        Err(_) => return false,
    };
    let allocated = status(registry);
    proof {
        law_release_undoes_allocate(recs0, FrameOwner::Test);
        lemma_allocated_count_bound(registry.records());
    }
    let released = release_frame(registry, frame.token).is_ok();
    let after = status(registry);
    released && frame.start_address % PAGE_SIZE == 0
        && allocated.allocated_frames == before.allocated_frames.saturating_add(1)
        && after.allocated_frames == before.allocated_frames && after.release_count > before.release_count
}

proof fn lemma_all_owned_count(records: Seq<FrameRecord>)
    requires
        first_free(records) is None,
    ensures
        allocated_count(records) == records.len(),
    decreases records.len(),
{
    if records.len() > 0 {
        assert(first_free(records.drop_last()) is None);
        lemma_all_owned_count(records.drop_last());
    }
}

// ─────────────────── frames from the boot memory map ───────────────────

/// A region of the boot memory map.
#[derive(Debug, Clone, Copy, PartialEq, Eq, Structural)]
pub struct MemoryRegion {
    pub start_addr: u64,
    pub end_addr: u64,
    pub usable: bool,
}

/// Number of page addresses `start, start + 4096, ...` below `end`.
pub open spec fn pages_in(r: MemoryRegion) -> nat {
    if r.usable && r.end_addr > r.start_addr {
        ((r.end_addr - r.start_addr + 4095) / 4096) as nat
    } else {
        0
    }
}

/// The page addresses of the usable regions, region by region.
pub open spec fn usable_page_addresses(rs: Seq<MemoryRegion>) -> Seq<u64>
    decreases rs.len(),
{
    if rs.len() == 0 {
        Seq::empty()
    } else {
        let r = rs.last();
        usable_page_addresses(rs.drop_last()) + Seq::new(pages_in(r), |i: int| (r.start_addr + 4096 * i) as u64)
    }
}

/// How many page addresses are collected: the frames to skip plus a registry's worth.
pub open spec fn collect_limit(skip: usize) -> int {
    if skip + MAX_TRACKED_FRAMES > usize::MAX {
        usize::MAX as int
    } else {
        skip + MAX_TRACKED_FRAMES
    }
}

/// The frames handed to the registry: the first page addresses of the usable regions
/// up to the collection limit, without the first `skip` of them.
pub open spec fn kept_addresses(rs: Seq<MemoryRegion>, skip: usize) -> Seq<u64> {
    let all = usable_page_addresses(rs);
    let n = if all.len() < collect_limit(skip) { all.len() as int } else { collect_limit(skip) };
    let collected = all.subrange(0, n);
    if skip >= n {
        Seq::empty()
    } else {
        collected.subrange(skip as int, n)
    }
}

proof fn lemma_usable_prefix(rs: Seq<MemoryRegion>, k: int)
    requires
        0 <= k < rs.len(),
    ensures
        usable_page_addresses(rs.subrange(0, k + 1)) == usable_page_addresses(rs.subrange(0, k)) + Seq::new(
            pages_in(rs[k]),
            |i: int| (rs[k].start_addr + 4096 * i) as u64,
        ),
{
    assert(rs.subrange(0, k + 1).drop_last() =~= rs.subrange(0, k));
}

proof fn lemma_usable_monotone(rs: Seq<MemoryRegion>, k: int)
    requires
        0 <= k <= rs.len(),
    ensures
        usable_page_addresses(rs.subrange(0, k)).len() <= usable_page_addresses(rs).len(),
        usable_page_addresses(rs.subrange(0, k)) == usable_page_addresses(rs).subrange(
            0,
            usable_page_addresses(rs.subrange(0, k)).len() as int,
        ),
    decreases rs.len() - k,
{
    if k < rs.len() {
        lemma_usable_monotone(rs, k + 1);
        lemma_usable_prefix(rs, k);
        let a = usable_page_addresses(rs.subrange(0, k));
        let b = usable_page_addresses(rs.subrange(0, k + 1));
        assert(a =~= b.subrange(0, a.len() as int));
    } else {
        assert(rs.subrange(0, k) =~= rs);
    }
}

/// The page addresses collected from the usable regions of `regions`, up to the
/// collection limit.
fn collect_addresses(regions: &[MemoryRegion], limit: usize) -> (r: Vec<u64>)
    ensures
        ({
            let all = usable_page_addresses(regions@);
            r@ == all.subrange(0, if all.len() < limit { all.len() as int } else { limit as int })
        }),
{
    let ghost rs = regions@;
    let mut out: Vec<u64> = Vec::new();
    let mut k: usize = 0;
    while k < regions.len() && out.len() < limit
        invariant
            rs == regions@,
            k <= rs.len(),
            out@.len() <= limit,
            out@.len() < limit ==> out@ == usable_page_addresses(rs.subrange(0, k as int)),
            out@.len() == limit ==> out@ == usable_page_addresses(rs).subrange(0, limit as int) && limit
                <= usable_page_addresses(rs).len(),
        decreases rs.len() - k,
    {
        let region = regions[k];
        proof {
            lemma_usable_prefix(rs, k as int);
            lemma_usable_monotone(rs, k as int + 1);
        }
        let ghost base = out@;
        let ghost pages = Seq::new(pages_in(region), |i: int| (region.start_addr + 4096 * i) as u64);
        if region.usable && region.end_addr > region.start_addr {
            let mut addr = region.start_addr;
            let mut done = false;
            let ghost mut j: int = 0;
            while !done && addr < region.end_addr && out.len() < limit
                invariant
                    done ==> j == pages.len(),
                    rs == regions@,
                    k < rs.len(),
                    region == rs[k as int],
                    region.usable && region.end_addr > region.start_addr,
                    pages == Seq::new(pages_in(region), |i: int| (region.start_addr + 4096 * i) as u64),
                    pages.len() == pages_in(region),
                    base == usable_page_addresses(rs.subrange(0, k as int)),
                    base.len() < limit,
                    usable_page_addresses(rs.subrange(0, k as int + 1)) == base + pages,
                    usable_page_addresses(rs.subrange(0, k as int + 1)) == usable_page_addresses(rs).subrange(
                        0,
                        usable_page_addresses(rs.subrange(0, k as int + 1)).len() as int,
                    ),
                    usable_page_addresses(rs.subrange(0, k as int + 1)).len() <= usable_page_addresses(rs).len(),
                    0 <= j <= pages.len(),
                    addr == region.start_addr + 4096 * j || j == pages.len(),
                    j < pages.len() ==> addr < region.end_addr,
                    j == pages.len() ==> addr >= region.end_addr || addr == u64::MAX,
                    out@ == base + pages.subrange(0, j),
                    out@.len() <= limit,
                decreases pages.len() - j,
            {
                proof {
                    if j == pages.len() {
                        assert(addr >= region.end_addr || addr == u64::MAX);
                    }
                }
                assert(j < pages.len()) by {
                    if j == pages.len() {
                        assert(addr < region.end_addr);
                        assert(addr == u64::MAX);
                    }
                }
                out.push(addr);
                assert(out@ =~= base + pages.subrange(0, j + 1));
                proof {
                    j = j + 1;
                }
                if region.end_addr - addr <= 4096 {
                    assert(j == pages.len()) by (nonlinear_arith)
                        requires
                            addr == region.start_addr + 4096 * (j - 1),
                            region.end_addr - addr <= 4096,
                            pages.len() == (region.end_addr - region.start_addr + 4095) / 4096,
                            region.end_addr > addr,
                    ;
                    addr = u64::MAX;
                    done = true;
                } else {
                    assert(j < pages.len()) by (nonlinear_arith)
                        requires
                            addr == region.start_addr + 4096 * (j - 1),
                            region.end_addr - addr > 4096,
                            pages.len() == (region.end_addr - region.start_addr + 4095) / 4096,
                    ;
                    addr = addr + 4096;
                }
            }
            proof {
                if out@.len() == limit {
                    assert(out@ =~= usable_page_addresses(rs).subrange(0, limit as int));
                } else {
                    assert(j == pages.len());
                    assert(out@ =~= base + pages);
                }
            }
        } else {
            assert(pages =~= Seq::<u64>::empty());
            assert(base + pages =~= base);
        }
        k = k + 1;
    }
    proof {
        if out@.len() < limit {
            assert(rs.subrange(0, k as int) =~= rs);
            assert(usable_page_addresses(rs).subrange(0, usable_page_addresses(rs).len() as int) =~= usable_page_addresses(rs));
        }
    }
    out
}

/// Starts tracking the usable frames of the boot memory map, skipping the first
/// `skip_allocated_frames` page addresses (frames the boot allocator already used).
pub fn init_from_memory_map(registry: &mut FrameRegistry, regions: &[MemoryRegion], skip_allocated_frames: usize) -> (r: Result<
    (),
    FrameOwnershipError,
>)
    requires
        old(registry).wf(),
    ensures
        final(registry).wf(),
        old(registry).is_initialized() ==> r == Err::<(), FrameOwnershipError>(
            FrameOwnershipError::AlreadyInitialized,
        ) && *final(registry) == *old(registry),
        !old(registry).is_initialized() ==> r == Ok::<(), FrameOwnershipError>(()) && final(registry).is_initialized()
            && final(registry).records().len() == kept_addresses(regions@, skip_allocated_frames).len()
            && forall|i: int|
            0 <= i < final(registry).records().len() ==> #[trigger] final(registry).records()[i].start_address
                == kept_addresses(regions@, skip_allocated_frames)[i] && final(registry).records()[i].owner is None,
{
    let limit = skip_allocated_frames.saturating_add(MAX_TRACKED_FRAMES);
    assert(limit == collect_limit(skip_allocated_frames));
    let addresses = collect_addresses(regions, limit);
    let mut kept: Vec<u64> = Vec::new();
    if skip_allocated_frames < addresses.len() {
        let mut i: usize = skip_allocated_frames;
        while i < addresses.len()
            invariant
                skip_allocated_frames <= i <= addresses@.len(),
                kept@ == addresses@.subrange(skip_allocated_frames as int, i as int),
            decreases addresses@.len() - i,
        {
            kept.push(addresses[i]);
            assert(kept@ =~= addresses@.subrange(skip_allocated_frames as int, i as int + 1));
            i = i + 1;
        }
    }
    proof {
        let t = kept_addresses(regions@, skip_allocated_frames);
        assert(kept@ =~= t);
        assert(addresses@.len() <= limit);
        assert(t.len() <= MAX_TRACKED_FRAMES);
    }
    let slice = kept.as_slice();
    assert(slice@ == kept_addresses(regions@, skip_allocated_frames));
    let r = registry.init_from_addresses(slice);
    proof {
        let t = kept_addresses(regions@, skip_allocated_frames);
        if !old(registry).is_initialized() {
            assert(registry.records().len() == t.len());
            assert forall|i: int| 0 <= i < registry.records().len() implies #[trigger] registry.records()[i].start_address
                == t[i] && registry.records()[i].owner is None by {}
        }
    }
    r
}

} // verus!
