//! Builds the kernel's translation regime out of the static memory layout:
//! each descriptor's virtual extent is widened to its granule, the widened
//! ranges are checked pairwise disjoint, and the resulting table answers,
//! for every mapped virtual address, the physical address and attribute
//! bundle the layout demands. A collision between two descriptors is a
//! fatal configuration error and fails the whole installation.

use vstd::prelude::*;
use crate::allocator::{spec_align_up, lemma_align_up};
use crate::memory_controler::{
    AccessPermissions, AttributeFields, Granule, MemAttributes, RangeDescriptor, Translation,
};

verus! {

/// Why installing a translation failed: a descriptor whose range is not a
/// real interval (or whose offset would translate below physical address
/// zero, or whose granule-widened end leaves the address space), or two
/// descriptors whose widened ranges collide.
#[derive(Copy, Clone, Debug, PartialEq, Eq, Structural)]
pub enum TranslationError {
    InvalidRange,
    OverlappingRanges,
}

/// A descriptor the table builder accepts: well formed, its widened end
/// still inside the address space, and an offset translation small enough
/// that even the widened start stays at or above physical address zero.
pub open spec fn spec_entry_ok(d: RangeDescriptor) -> bool {
    let g = d.granule.spec_size() as int;
    &&& d.wf()
    &&& spec_align_up(d.virt_end as int, g) <= usize::MAX
    &&& match d.translation {
        Translation::Identity => true,
        Translation::Offset(k) => k <= d.virt_start as int - d.virt_start as int % g,
    }
}

/// The descriptor with its virtual extent widened to whole granules:
/// the start rounded down, the end rounded up.
pub open spec fn spec_aligned_descriptor(d: RangeDescriptor) -> RangeDescriptor {
    let g = d.granule.spec_size() as int;
    RangeDescriptor {
        name: d.name,
        virt_start: (d.virt_start as int - d.virt_start as int % g) as usize,
        virt_end: spec_align_up(d.virt_end as int, g) as usize,
        translation: d.translation,
        attribute_fields: d.attribute_fields,
        granule: d.granule,
    }
}

/// Result of looking one virtual address up in an installed table, taken
/// from the entry that covers the address.
pub open spec fn spec_lookup_from(
    s: Seq<RangeDescriptor>,
    i: int,
    va: usize,
) -> Option<(usize, AttributeFields)>
    decreases s.len() - i,
{
    if i < 0 || i >= s.len() {
        None
    } else if s[i].spec_contains(va) {
        Some((s[i].spec_phys_of(va), s[i].attribute_fields))
    } else {
        spec_lookup_from(s, i + 1, va)
    }
}

proof fn lemma_lookup_skip(s: Seq<RangeDescriptor>, i: int, va: usize)
    requires
        0 <= i <= s.len(),
        forall|j: int| 0 <= j < i ==> !(#[trigger] s[j].spec_contains(va)),
    ensures
        spec_lookup_from(s, 0, va) == spec_lookup_from(s, i, va),
    decreases i,
{
    if i > 0 {
        lemma_lookup_skip(s, i - 1, va);
    }
}

/// Rounds `a` up to the next multiple of `g`, unless that multiple lies
/// beyond the address space.
fn try_align_up(a: usize, g: usize) -> (r: Option<usize>)
    requires
        g > 0,
    ensures
        match r {
            Some(v) => v == spec_align_up(a as int, g as int),
            None => spec_align_up(a as int, g as int) > usize::MAX,
        },
{
    proof {
        lemma_align_up(a as int, g as int);
    }
    let rem = a % g;
    if rem == 0 {
        Some(a)
    } else if a <= usize::MAX - (g - rem) {
        Some(a + (g - rem))
    } else {
        None
    }
}

/// Runtime check matching `spec_entry_ok`.
fn entry_ok(d: &RangeDescriptor) -> (r: bool)
    ensures
        r == spec_entry_ok(*d),
{
    let g = d.granule.size();
    let aligned_end_fits = match try_align_up(d.virt_end, g) {
        Some(_) => true,
        None => false,
    };
    proof {
        assert(0 <= d.virt_start as int % (g as int) <= d.virt_start as int)
            by (nonlinear_arith)
            requires
                g > 0,
        ;
    }
    let offset_fits = match d.translation {
        Translation::Identity => true,
        Translation::Offset(k) => k <= d.virt_start - d.virt_start % g,
    };
    d.virt_start < d.virt_end && aligned_end_fits && offset_fits
}

/// The granule-widened copy of an accepted descriptor.
fn aligned_descriptor(d: &RangeDescriptor) -> (r: RangeDescriptor)
    requires
        spec_entry_ok(*d),
    ensures
        r == spec_aligned_descriptor(*d),
        r.wf(),
        r.virt_start <= d.virt_start,
        r.virt_end >= d.virt_end,
{
    let g = d.granule.size();
    proof {
        assert(0 <= d.virt_start as int % (g as int) <= d.virt_start as int)
            by (nonlinear_arith)
            requires
                g > 0,
        ;
    }
    let start = d.virt_start - d.virt_start % g;
    let end_opt = try_align_up(d.virt_end, g);
    proof {
        lemma_align_up(d.virt_end as int, g as int);
        assert(end_opt is Some);
    }
    let end = end_opt.unwrap();
    RangeDescriptor {
        name: d.name,
        virt_start: start,
        virt_end: end,
        translation: d.translation,
        attribute_fields: d.attribute_fields,
        granule: d.granule,
    }
}

/// The kernel's installed translation regime: one granule-widened entry
/// per accepted descriptor, pairwise disjoint.
#[derive(Debug)]
pub struct TranslationTable {
    entries: Vec<RangeDescriptor>,
}

impl TranslationTable {
    /// The installed entries, in installation order.
    pub closed spec fn spec_entries(self) -> Seq<RangeDescriptor> {
        self.entries@
    }

    /// Every entry is well formed and no two entries share a virtual
    /// address.
    pub open spec fn wf(self) -> bool {
        &&& forall|i: int| 0 <= i < self.spec_entries().len()
                ==> (#[trigger] self.spec_entries()[i]).wf()
        &&& forall|i: int, j: int| 0 <= i < j < self.spec_entries().len()
                ==> !(#[trigger] self.spec_entries()[i]).spec_overlaps(
                    #[trigger] self.spec_entries()[j])
    }

    /// The physical address and attributes a virtual address translates
    /// to, if any entry maps it.
    pub open spec fn spec_lookup(self, va: usize) -> Option<(usize, AttributeFields)> {
        spec_lookup_from(self.spec_entries(), 0, va)
    }

    /// Runtime translation walk matching `spec_lookup`.
    pub fn lookup(&self, va: usize) -> (r: Option<(usize, AttributeFields)>)
        requires
            self.wf(),
        ensures
            r == self.spec_lookup(va),
    {
        let n = self.entries.len();
        let mut i: usize = 0;
        while i < n
            invariant
                self.wf(),
                n == self.spec_entries().len(),
                i <= n,
                forall|j: int| 0 <= j < i
                    ==> !(#[trigger] self.spec_entries()[j].spec_contains(va)),
            decreases n - i,
        {
            let d = self.entries[i];
            if d.contains(va) {
                let pa = d.phys_of(va);
                proof {
                    lemma_lookup_skip(self.spec_entries(), i as int, va);
                }
                return Some((pa, d.attribute_fields));
            }
            i = i + 1;
        }
        proof {
            lemma_lookup_skip(self.spec_entries(), n as int, va);
        }
        None
    }

    /// Every address of the layout descriptor `li` is mapped by the
    /// installed table exactly as the descriptor demands: identity
    /// translation leaves the address unchanged, an offset translation
    /// lowers it by the fixed offset, and the attribute bundle is the
    /// descriptor's own.
    pub proof fn lemma_layout_mapped(
        self,
        layout: Seq<RangeDescriptor>,
        li: int,
        va: usize,
    )
        requires
            self.wf(),
            self.spec_entries().len() == layout.len(),
            forall|i: int| 0 <= i < layout.len()
                ==> #[trigger] spec_entry_ok(layout[i]),
            forall|i: int| 0 <= i < layout.len()
                ==> #[trigger] self.spec_entries()[i] == spec_aligned_descriptor(layout[i]),
            0 <= li < layout.len(),
            layout[li].spec_contains(va),
        ensures
            self.spec_lookup(va) == Some(
                (layout[li].spec_phys_of(va), layout[li].attribute_fields),
            ),
    {
        let s = self.spec_entries();
        let e = s[li];
        assert(e == spec_aligned_descriptor(layout[li]));
        let g = layout[li].granule.spec_size() as int;
        let vs = layout[li].virt_start as int;
        assert(0 <= vs % g <= vs && vs % g < g) by (nonlinear_arith)
            requires
                g > 0,
                vs >= 0,
        ;
        assert(spec_entry_ok(layout[li]));
        let ve = layout[li].virt_end as int;
        lemma_align_up(ve, g);
        assert(spec_align_up(ve, g) <= usize::MAX);
        assert(ve <= spec_align_up(ve, g));
        assert(e.virt_start == vs - vs % g);
        assert(e.virt_end == spec_align_up(ve, g));
        assert(e.spec_contains(va));
        assert forall|j: int| 0 <= j < li implies !(#[trigger] s[j].spec_contains(va)) by {
            if s[j].spec_contains(va) {
                assert(s[j].spec_overlaps(s[li]));
            }
        }
        lemma_lookup_skip(s, li, va);
        assert(spec_lookup_from(s, li, va) == Some((e.spec_phys_of(va), e.attribute_fields)));
        assert(e.spec_phys_of(va) == layout[li].spec_phys_of(va));
    }

    /// Builds and installs the kernel translation: checks every
    /// descriptor, refuses a malformed one, refuses any pair whose
    /// widened ranges collide rather than silently mapping one over the
    /// other, and otherwise installs one widened entry per descriptor.
    pub fn init(layout: &Vec<RangeDescriptor>) -> (r: Result<TranslationTable, TranslationError>)
        ensures
            match r {
                Ok(t) => {
                    &&& forall|i: int| 0 <= i < layout@.len()
                        ==> #[trigger] spec_entry_ok(layout@[i])
                    &&& forall|i: int, j: int| 0 <= i < j < layout@.len()
                        ==> !spec_aligned_descriptor(#[trigger] layout@[i]).spec_overlaps(
                            spec_aligned_descriptor(#[trigger] layout@[j]))
                    &&& t.wf()
                    &&& t.spec_entries().len() == layout@.len()
                    &&& forall|i: int| 0 <= i < layout@.len()
                        ==> #[trigger] t.spec_entries()[i] == spec_aligned_descriptor(
                            layout@[i])
                },
                Err(TranslationError::InvalidRange) => exists|i: int|
                    0 <= i < layout@.len() && !(#[trigger] spec_entry_ok(layout@[i])),
                Err(TranslationError::OverlappingRanges) => {
                    &&& forall|i: int| 0 <= i < layout@.len()
                        ==> #[trigger] spec_entry_ok(layout@[i])
                    &&& exists|i: int, j: int| 0 <= i < j < layout@.len()
                        && spec_aligned_descriptor(#[trigger] layout@[i]).spec_overlaps(
                            spec_aligned_descriptor(#[trigger] layout@[j]))
                },
            },
    {
        let n = layout.len();
        let mut i: usize = 0;
        while i < n
            invariant
                n == layout@.len(),
                i <= n,
                forall|k: int| 0 <= k < i ==> #[trigger] spec_entry_ok(layout@[k]),
            decreases n - i,
        {
            if !entry_ok(&layout[i]) {
                return Err(TranslationError::InvalidRange);
            }
            i = i + 1;
        }
        let mut i: usize = 0;
        while i < n
            invariant
                n == layout@.len(),
                i <= n,
                forall|k: int| 0 <= k < n ==> #[trigger] spec_entry_ok(layout@[k]),
                forall|a: int, b: int| 0 <= a < b < n && a < i
                    ==> !spec_aligned_descriptor(#[trigger] layout@[a]).spec_overlaps(
                        spec_aligned_descriptor(#[trigger] layout@[b])),
            decreases n - i,
        {
            let da = aligned_descriptor(&layout[i]);
            let mut j: usize = i + 1;
            while j < n
                invariant
                    n == layout@.len(),
                    i < n,
                    i < j <= n,
                    forall|k: int| 0 <= k < n ==> #[trigger] spec_entry_ok(layout@[k]),
                    da == spec_aligned_descriptor(layout@[i as int]),
                    forall|b: int| i < b < j
                        ==> !spec_aligned_descriptor(layout@[i as int]).spec_overlaps(
                            spec_aligned_descriptor(#[trigger] layout@[b])),
                decreases n - j,
            {
                let db = aligned_descriptor(&layout[j]);
                if da.overlaps(&db) {
                    return Err(TranslationError::OverlappingRanges);
                }
                j = j + 1;
            }
            i = i + 1;
        }
        let mut entries: Vec<RangeDescriptor> = Vec::new();
        let mut i: usize = 0;
        while i < n
            invariant
                n == layout@.len(),
                i <= n,
                forall|k: int| 0 <= k < n ==> #[trigger] spec_entry_ok(layout@[k]),
                forall|a: int, b: int| 0 <= a < b < n
                    ==> !spec_aligned_descriptor(#[trigger] layout@[a]).spec_overlaps(
                        spec_aligned_descriptor(#[trigger] layout@[b])),
                entries@.len() == i,
                forall|k: int| 0 <= k < i
                    ==> #[trigger] entries@[k] == spec_aligned_descriptor(layout@[k]),
                forall|k: int| 0 <= k < i ==> (#[trigger] entries@[k]).wf(),
            decreases n - i,
        {
            let e = aligned_descriptor(&layout[i]);
            entries.push(e);
            i = i + 1;
        }
        let t = TranslationTable { entries };
        proof {
            assert forall|a: int, b: int| 0 <= a < b < t.spec_entries().len() implies !(
            #[trigger] t.spec_entries()[a]).spec_overlaps(#[trigger] t.spec_entries()[b]) by {
                assert(t.spec_entries()[a] == spec_aligned_descriptor(layout@[a]));
                assert(t.spec_entries()[b] == spec_aligned_descriptor(layout@[b]));
            }
        }
        Ok(t)
    }

    /// Adds one more mapping after init: used to give a value a high
    /// kernel-regime virtual address while its physical backing stays
    /// where it is. The new range is mapped with the page granule,
    /// cacheable, kernel-only, not executable, writable on request. The
    /// virtual base must sit at or above the physical base; a malformed
    /// or colliding range is refused.
    #[verifier::loop_isolation(false)]
    pub fn map_kernel_memory(
        &mut self,
        name: &'static str,
        virt_start: usize,
        virt_end: usize,
        phys_base: usize,
        writable: bool,
    ) -> (r: Result<(), TranslationError>)
        requires
            old(self).wf(),
        ensures
            final(self).wf(),
            ({
                let d = (RangeDescriptor {
                    name,
                    virt_start,
                    virt_end,
                    translation: if phys_base == virt_start {
                        Translation::Identity
                    } else {
                        Translation::Offset((virt_start - phys_base) as usize)
                    },
                    attribute_fields: (AttributeFields {
                        mem_attributes: MemAttributes::CacheableDRAM,
                        acc_perms: if writable {
                            AccessPermissions::KernelReadWrite
                        } else {
                            AccessPermissions::KernelReadOnly
                        },
                        executable: false,
                    }),
                    granule: Granule::Page4KiB,
                });
                match r {
                    Ok(()) => {
                        &&& phys_base <= virt_start
                        &&& spec_entry_ok(d)
                        &&& forall|i: int| 0 <= i < old(self).spec_entries().len()
                            ==> !(#[trigger] old(self).spec_entries()[i]).spec_overlaps(
                                spec_aligned_descriptor(d))
                        &&& final(self).spec_entries() == old(self).spec_entries().push(
                            spec_aligned_descriptor(d))
                    },
                    Err(TranslationError::InvalidRange) => {
                        &&& phys_base > virt_start || !spec_entry_ok(d)
                        &&& final(self).spec_entries() == old(self).spec_entries()
                    },
                    Err(TranslationError::OverlappingRanges) => {
                        &&& phys_base <= virt_start
                        &&& spec_entry_ok(d)
                        &&& exists|i: int| 0 <= i < old(self).spec_entries().len()
                            && (#[trigger] old(self).spec_entries()[i]).spec_overlaps(
                                spec_aligned_descriptor(d))
                        &&& final(self).spec_entries() == old(self).spec_entries()
                    },
                }
            }),
    {
        if phys_base > virt_start {
            return Err(TranslationError::InvalidRange);
        }
        let d = RangeDescriptor {
            name,
            virt_start,
            virt_end,
            translation: if phys_base == virt_start {
                Translation::Identity
            } else {
                Translation::Offset(virt_start - phys_base)
            },
            attribute_fields: AttributeFields {
                mem_attributes: MemAttributes::CacheableDRAM,
                acc_perms: if writable {
                    AccessPermissions::KernelReadWrite
                } else {
                    AccessPermissions::KernelReadOnly
                },
                executable: false,
            },
            granule: Granule::Page4KiB,
        };
        if !entry_ok(&d) {
            return Err(TranslationError::InvalidRange);
        }
        let e = aligned_descriptor(&d);
        let n = self.entries.len();
        let mut i: usize = 0;
        while i < n
            invariant
                *self == *old(self),
                old(self).wf(),
                n == self.spec_entries().len(),
                i <= n,
                e == spec_aligned_descriptor(d),
                e.wf(),
                forall|k: int| 0 <= k < i
                    ==> !(#[trigger] self.spec_entries()[k]).spec_overlaps(e),
            decreases n - i,
        {
            if self.entries[i].overlaps(&e) {
                proof {
                    assert(old(self).spec_entries()[i as int].spec_overlaps(e));
                }
                return Err(TranslationError::OverlappingRanges);
            }
            i = i + 1;
        }
        self.entries.push(e);
        Ok(())
    }
}

} // verus!
