//! Static and dynamic relocations of frame-backed images.
//!
//! Relocation decides which 8-byte values go where; the bytes themselves are written
//! into the backing frames by the caller, in the order given.

use vstd::prelude::*;
use crate::frame_backing::{all_pages, BackedPage, FrameBackedImage};

verus! {

pub const R_X86_64_NONE: u32 = 0;
pub const R_X86_64_64: u32 = 1;
pub const R_X86_64_RELATIVE: u32 = 8;
/// Load base used when the image has no page.
pub const DEFAULT_LOAD_BASE: u64 = 0x400000;
/// Offset of the `ARES` dynamic-link marker in an image.
pub const ARES_MARKER_OFFSET: usize = 120;

/// Relocation counters; each wraps on overflow.
#[derive(Debug, Clone, Copy, PartialEq, Eq, Structural)]
pub struct RelocCounters {
    pub applied: u64,
    pub rejected: u64,
    pub dt_needed: u64,
    pub dt_linked: u64,
}

pub open spec fn wrap_inc(x: u64) -> u64 {
    if x == u64::MAX {
        0
    } else {
        (x + 1) as u64
    }
}

pub open spec fn wrap_add(x: u64, y: u64) -> u64 {
    if x + y > u64::MAX {
        (x + y - u64::MAX - 1) as u64
    } else {
        (x + y) as u64
    }
}

/// (applied, rejected) relocations.
pub fn status(c: &RelocCounters) -> (r: (u64, u64))
    ensures
        r == (c.applied, c.rejected),
{
    (c.applied, c.rejected)
}

/// (needed libraries seen, libraries linked, whether any was linked).
pub fn dynamic_status(c: &RelocCounters) -> (r: (u64, u64, bool))
    ensures
        r == (c.dt_needed, c.dt_linked, c.dt_linked > 0),
{
    (c.dt_needed, c.dt_linked, c.dt_linked > 0)
}

/// Whether the image carries the `ARES` marker at byte 120.
pub open spec fn has_ares_marker(image: Seq<u8>) -> bool {
    image.len() >= 124 && image.subrange(120, 124) == seq![65u8, 82, 69, 83]
}

fn ares_marker(image: &[u8]) -> (r: bool)
    ensures
        r == has_ares_marker(image@),
{
    if image.len() < 124 {
        return false;
    }
    let ok = image[120] == 65 && image[121] == 82 && image[122] == 69 && image[123] == 83;
    assert(ok ==> image@.subrange(120, 124) =~= seq![65u8, 82, 69, 83]);
    assert(image@.subrange(120, 124) == seq![65u8, 82, 69, 83] ==> image@.subrange(120, 124)[0] == 65u8
        && image@.subrange(120, 124)[1] == 82u8 && image@.subrange(120, 124)[2] == 69u8
        && image@.subrange(120, 124)[3] == 83u8);
    ok
}

/// The library an image needs: `libc_stub` for images carrying the `ARES` marker.
/// (The scan for a `DT_NEEDED` tag compares 7-byte windows with the 9-byte tag, so it
/// never matches; only the marker decides.)
pub fn parse_dt_needed(image_bytes: &[u8]) -> (r: Option<&'static str>)
    ensures
        r is Some <==> has_ares_marker(image_bytes@),
        r matches Some(s) ==> s@ == "libc_stub"@,
{
    if ares_marker(image_bytes) {
        return Some("libc_stub");
    }
    None
}

/// Counts a dynamic-link smoke run: `true`, with the needed and linked counters
/// raised, when the image needs a library.
pub fn record_dynamic_link_smoke(c: &mut RelocCounters, image_bytes: &[u8]) -> (r: bool)
    ensures
        r == has_ares_marker(image_bytes@),
        r ==> *final(c) == (RelocCounters {
            dt_needed: wrap_inc(old(c).dt_needed),
            dt_linked: wrap_inc(old(c).dt_linked),
            ..*old(c)
        }),
        !r ==> *final(c) == *old(c),
{
    if parse_dt_needed(image_bytes).is_none() {
        return false;
    }
    c.dt_needed = c.dt_needed.wrapping_add(1);
    c.dt_linked = c.dt_linked.wrapping_add(1);
    true
}

#[derive(Debug, Clone, Copy, PartialEq, Eq, Structural)]
pub struct StaticReloc {
    pub offset: u64,
    pub kind: u32,
    pub addend: u64,
}

pub open spec fn sat_add(a: u64, b: u64) -> u64 {
    if a + b > u64::MAX {
        u64::MAX
    } else {
        (a + b) as u64
    }
}

/// The relocations of an image loaded at `load_base`: one relative relocation of the
/// marker word for images carrying the `ARES` marker.
pub fn relocs_for_image(image_bytes: &[u8], load_base: u64) -> (r: Vec<StaticReloc>)
    ensures
        has_ares_marker(image_bytes@) ==> r@ == seq![
            StaticReloc { offset: sat_add(load_base, 120), kind: R_X86_64_RELATIVE, addend: load_base },
        ],
        !has_ares_marker(image_bytes@) ==> r@ == Seq::<StaticReloc>::empty(),
{
    let mut relocs: Vec<StaticReloc> = Vec::new();
    if ares_marker(image_bytes) {
        relocs.push(
            StaticReloc { offset: load_base.saturating_add(120), kind: R_X86_64_RELATIVE, addend: load_base },
        );
    }
    assert(relocs@.len() == 0 ==> relocs@ =~= Seq::<StaticReloc>::empty());
    relocs
}

/// One 8-byte little-endian write into a backing frame.
#[derive(Debug, Clone, Copy, PartialEq, Eq, Structural)]
pub struct RelocWrite {
    /// Start address of the backing frame.
    pub frame_address: u64,
    /// Byte offset inside the frame.
    pub offset: usize,
    pub value: u64,
}

/// The writes to perform, in order, and the outcome: the number of applied
/// relocations, or an error after the writes already listed.
#[derive(Debug)]
pub struct RelocOutcome {
    pub writes: Vec<RelocWrite>,
    pub result: Result<usize, ()>,
}

/// The base the image was loaded at: the first page of the first region.
pub open spec fn load_base_of(backed: FrameBackedImage) -> u64 {
    if backed.regions@.len() > 0 && backed.regions@[0].pages@.len() > 0 {
        backed.regions@[0].pages@[0].virtual_address
    } else {
        DEFAULT_LOAD_BASE
    }
}

/// Index of the first backed page whose address is `base`.
pub open spec fn page_at(ps: Seq<BackedPage>, base: u64) -> Option<int> {
    if exists|i: int| 0 <= i < ps.len() && (#[trigger] ps[i]).virtual_address == base {
        Some(choose|i: int|
            0 <= i < ps.len() && (#[trigger] ps[i]).virtual_address == base && forall|j: int|
                0 <= j < i ==> (#[trigger] ps[j]).virtual_address != base)
    } else {
        None
    }
}

/// The write that puts `value` at `va`, if a backed page holds `va`.
#[verifier::opaque]
pub open spec fn reloc_write(backed: FrameBackedImage, va: u64, value: u64) -> Option<RelocWrite> {
    let ps = all_pages(backed.regions@);
    match page_at(ps, (va - va % 4096) as u64) {
        Some(i) => Some(RelocWrite { frame_address: ps[i].frame.start_address, offset: (va % 4096) as usize, value }),
        None => None,
    }
}

pub open spec fn reloc_value(r: StaticReloc, base: u64) -> u64 {
    if r.kind == R_X86_64_RELATIVE {
        wrap_add(base, r.addend)
    } else {
        r.addend
    }
}

/// Writes and applied count after the relocations `rs`, or the writes made before the
/// first failing relocation and `None`.
pub open spec fn reloc_run(backed: FrameBackedImage, rs: Seq<StaticReloc>) -> (Seq<RelocWrite>, Option<nat>)
    decreases rs.len(),
{
    if rs.len() == 0 {
        (Seq::empty(), Some(0nat))
    } else {
        let (ws, st) = reloc_run(backed, rs.drop_last());
        match st {
            None => (ws, None),
            Some(n) => {
                let r = rs.last();
                if r.kind == R_X86_64_NONE {
                    (ws, Some(n))
                } else if r.kind == R_X86_64_64 || r.kind == R_X86_64_RELATIVE {
                    match reloc_write(backed, r.offset, reloc_value(r, load_base_of(backed))) {
                        Some(w) => (ws.push(w), Some(n + 1)),
                        None => (ws, None),
                    }
                } else {
                    (ws, None)
                }
            },
        }
    }
}

proof fn lemma_reloc_run_failed_sticks(backed: FrameBackedImage, rs: Seq<StaticReloc>, k: int)
    requires
        0 <= k <= rs.len(),
        reloc_run(backed, rs.subrange(0, k)).1 is None,
    ensures
        reloc_run(backed, rs) == reloc_run(backed, rs.subrange(0, k)),
    decreases rs.len() - k,
{
    if k < rs.len() {
        assert(rs.subrange(0, k + 1).drop_last() =~= rs.subrange(0, k));
        lemma_reloc_run_failed_sticks(backed, rs, k + 1);
    } else {
        assert(rs.subrange(0, k) =~= rs);
    }
}

proof fn lemma_reloc_run_count(backed: FrameBackedImage, rs: Seq<StaticReloc>)
    ensures
        reloc_run(backed, rs).1 matches Some(n) ==> n <= rs.len(),
    decreases rs.len(),
{
    if rs.len() > 0 {
        lemma_reloc_run_count(backed, rs.drop_last());
    }
}

fn load_base(backed: &FrameBackedImage) -> (r: u64)
    ensures
        r == load_base_of(*backed),
{
    if backed.regions.len() > 0 && backed.regions[0].pages.len() > 0 {
        backed.regions[0].pages[0].virtual_address
    } else {
        DEFAULT_LOAD_BASE
    }
}

/// The write that puts `value` at `virtual_address`, if a backed page holds it.
fn write_reloc_value(backed: &FrameBackedImage, virtual_address: u64, value: u64) -> (r: Option<RelocWrite>)
    ensures
        r == reloc_write(*backed, virtual_address, value),
{
    reveal(reloc_write);
    let page_base = virtual_address & !0xfffu64;
    let offset = (virtual_address & 0xfffu64) as usize;
    assert(page_base == virtual_address - virtual_address % 4096 && virtual_address & 0xfffu64 == virtual_address
        % 4096) by (bit_vector)
        requires
            page_base == virtual_address & !0xfffu64,
    ;
    let ghost ps = all_pages(backed.regions@);
    let ghost rs = backed.regions@;
    let mut k: usize = 0;
    while k < backed.regions.len()
        invariant
            rs == backed.regions@,
            ps == all_pages(rs),
            k <= rs.len(),
            page_base == virtual_address - virtual_address % 4096,
            offset == virtual_address % 4096,
            forall|j: int| 0 <= j < all_pages(rs.subrange(0, k as int)).len() ==> (#[trigger] ps[j]).virtual_address != page_base,
            all_pages(rs.subrange(0, k as int)) == ps.subrange(0, all_pages(rs.subrange(0, k as int)).len() as int),
            all_pages(rs.subrange(0, k as int)).len() <= ps.len(),
        decreases rs.len() - k,
    {
        let ghost before = all_pages(rs.subrange(0, k as int));
        proof {
            assert(rs.subrange(0, k as int + 1).drop_last() =~= rs.subrange(0, k as int));
            lemma_all_pages_prefix(rs, k as int + 1);
        }
        let region = &backed.regions[k];
        let mut i: usize = 0;
        while i < region.pages.len()
            invariant
                rs == backed.regions@,
                ps == all_pages(rs),
                k < rs.len(),
                *region == rs[k as int],
                page_base == virtual_address - virtual_address % 4096,
                offset == virtual_address % 4096,
                before == all_pages(rs.subrange(0, k as int)),
                all_pages(rs.subrange(0, k as int + 1)) == before + region.pages@,
                all_pages(rs.subrange(0, k as int + 1)) == ps.subrange(0, all_pages(rs.subrange(0, k as int + 1)).len() as int),
                all_pages(rs.subrange(0, k as int + 1)).len() <= ps.len(),
                i <= region.pages@.len(),
                forall|j: int| 0 <= j < before.len() + i ==> (#[trigger] ps[j]).virtual_address != page_base,
            decreases region.pages@.len() - i,
        {
            assert(ps[before.len() + i] == region.pages@[i as int]) by {
                let full = all_pages(rs.subrange(0, k as int + 1));
                assert(full[before.len() + i] == region.pages@[i as int]);
            }
            if region.pages[i].virtual_address == page_base {
                let page = region.pages[i];
                proof {
                    reveal(reloc_write);
                    let idx = before.len() + i;
                    let c = choose|c: int|
                        0 <= c < ps.len() && (#[trigger] ps[c]).virtual_address == page_base && forall|j: int|
                            0 <= j < c ==> (#[trigger] ps[j]).virtual_address != page_base;
                    assert(ps[idx].virtual_address == page_base);
                    if c < idx {
                        assert(ps[c].virtual_address != page_base);
                    } else if c > idx {
                        assert(ps[idx].virtual_address != page_base);
                    }
                }
                return Some(RelocWrite { frame_address: page.frame.start_address, offset, value });
            }
            i = i + 1;
        }
        k = k + 1;
    }
    assert(rs.subrange(0, k as int) =~= rs);
    proof {
        reveal(reloc_write);
    }
    None
}

proof fn lemma_all_pages_prefix(rs: Seq<crate::frame_backing::FrameBackedRegion>, k: int)
    requires
        0 <= k <= rs.len(),
    ensures
        all_pages(rs.subrange(0, k)) == all_pages(rs).subrange(0, all_pages(rs.subrange(0, k)).len() as int),
        all_pages(rs.subrange(0, k)).len() <= all_pages(rs).len(),
        k > 0 ==> all_pages(rs.subrange(0, k)) == all_pages(rs.subrange(0, k - 1)) + rs[k - 1].pages@,
    decreases rs.len() - k,
{
    if k > 0 {
        assert(rs.subrange(0, k).drop_last() =~= rs.subrange(0, k - 1));
    }
    if k < rs.len() {
        lemma_all_pages_prefix(rs, k + 1);
        let a = rs.subrange(0, k);
        let b = rs.subrange(0, k + 1);
        assert(b.drop_last() =~= a);
        assert(all_pages(b) == all_pages(a) + rs[k].pages@);
        assert(all_pages(a) =~= all_pages(b).subrange(0, all_pages(a).len() as int));
    } else {
        assert(rs.subrange(0, k) =~= rs);
    }
}

/// Applies `relocs` to `backed`: absolute and relative relocations become writes of
/// their value at their offset; an unknown kind or an offset outside the image stops
/// the run and is counted as rejected.
#[verifier::rlimit(30)]
pub fn apply_static_relocs(c: &mut RelocCounters, backed: &FrameBackedImage, image_bytes: &[u8], relocs: &[StaticReloc]) -> (r: RelocOutcome)
    ensures
        ({
            let (ws, st) = reloc_run(*backed, relocs@);
            &&& r.writes@ == ws
            &&& match st {
                Some(n) => r.result == Ok::<usize, ()>(n as usize) && *final(c) == (RelocCounters {
                    applied: if n > 0 { wrap_add(old(c).applied, n as u64) } else { old(c).applied },
                    ..*old(c)
                }),
                None => r.result == Err::<usize, ()>(()) && *final(c) == (RelocCounters {
                    rejected: wrap_inc(old(c).rejected),
                    ..*old(c)
                }),
            }
        }),
{
    let base = load_base(backed);
    let mut writes: Vec<RelocWrite> = Vec::new();
    let mut applied: usize = 0;
    let mut i: usize = 0;
    while i < relocs.len()
        invariant
            base == load_base_of(*backed),
            i <= relocs@.len(),
            *c == *old(c),
            reloc_run(*backed, relocs@.subrange(0, i as int)) == (writes@, Some(applied as nat)),
            applied <= i,
        decreases relocs@.len() - i,
    {
        let reloc = relocs[i];
        assert(relocs@.subrange(0, i as int + 1).drop_last() =~= relocs@.subrange(0, i as int));
        assert(relocs@.subrange(0, i as int + 1).last() == reloc);
        if reloc.kind == R_X86_64_NONE {
        } else if reloc.kind == R_X86_64_64 || reloc.kind == R_X86_64_RELATIVE {
            let value = if reloc.kind == R_X86_64_RELATIVE {
                base.wrapping_add(reloc.addend)
            } else {
                reloc.addend
            };
            match write_reloc_value(backed, reloc.offset, value) {
                Some(w) => {
                    writes.push(w);
                    applied = applied + 1;
                },
                None => {
                    c.rejected = c.rejected.wrapping_add(1);
                    proof {
                        lemma_reloc_run_failed_sticks(*backed, relocs@, i as int + 1);
                    }
                    return RelocOutcome { writes, result: Err(()) };
                },
            }
        } else {
            c.rejected = c.rejected.wrapping_add(1);
            proof {
                lemma_reloc_run_failed_sticks(*backed, relocs@, i as int + 1);
            }
            return RelocOutcome { writes, result: Err(()) };
        }
        i = i + 1;
    }
    assert(relocs@.subrange(0, i as int) =~= relocs@);
    if applied > 0 {
        c.applied = c.applied.wrapping_add(applied as u64);
    }
    RelocOutcome { writes, result: Ok(applied) }
}

/// Applies the relocations of an image that may need a shared library: such an image
/// counts a needed library before and a linked one after a successful run.
pub fn apply_dynamic_needed(c: &mut RelocCounters, backed: &FrameBackedImage, image_bytes: &[u8], relocs: &[StaticReloc]) -> (r: RelocOutcome)
    ensures
        ({
            let (ws, st) = reloc_run(*backed, relocs@);
            let needed = has_ares_marker(image_bytes@);
            &&& r.writes@ == ws
            &&& final(c).dt_needed == if needed { wrap_inc(old(c).dt_needed) } else { old(c).dt_needed }
            &&& match st {
                Some(n) => r.result == Ok::<usize, ()>(n as usize) && final(c).applied == (if n > 0 {
                    wrap_add(old(c).applied, n as u64)
                } else {
                    old(c).applied
                }) && final(c).rejected == old(c).rejected && final(c).dt_linked == if needed {
                    wrap_inc(old(c).dt_linked)
                } else {
                    old(c).dt_linked
                },
                None => r.result == Err::<usize, ()>(()) && final(c).rejected == wrap_inc(old(c).rejected)
                    && final(c).applied == old(c).applied && final(c).dt_linked == old(c).dt_linked,
            }
        }),
{
    if parse_dt_needed(image_bytes).is_none() {
        return apply_static_relocs(c, backed, image_bytes, relocs);
    }
    c.dt_needed = c.dt_needed.wrapping_add(1);
    let outcome = apply_static_relocs(c, backed, image_bytes, relocs);
    if outcome.result.is_err() {
        return outcome;
    }
    c.dt_linked = c.dt_linked.wrapping_add(1);
    outcome
}

} // verus!
