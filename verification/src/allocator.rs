//! The kernel heap allocator: a first-fit allocator whose bookkeeping is a
//! list of allocated blocks kept in strictly ascending address order. Free
//! space is exactly the set of gaps between consecutive blocks (and the tail
//! gap before the heap's upper bound), so deallocation — which unlinks one
//! block — merges the surrounding free space by construction; there is no
//! separate coalescing step, and releasing every allocation returns the list
//! to its initial single-node state.
//!
//! The raw free-list of the running kernel embeds each block header directly
//! in heap memory; here the list is held as handles (header address plus
//! payload size) behind the owning allocator type, which enforces the
//! ascending, non-overlapping invariant in one place.

use vstd::prelude::*;
use vstd::arithmetic::div_mod::lemma_fundamental_div_mod;

verus! {

/// Bytes a block header occupies in heap memory before the payload
/// (a forward link and the payload size, eight bytes each).
pub const BLOCK_HEADER_SIZE: usize = 16;

/// Payload size the sentinel block is created with; its payload is never
/// handed out, the size only keeps the first usable gap clear of the
/// allocator's own bookkeeping.
pub const SENTINEL_DATA_SIZE: usize = 10;

/// Handle to one allocated block: the heap address of its header and the
/// size of the payload that follows the header.
#[derive(Copy, Clone, Debug, PartialEq, Eq, Structural)]
pub struct Block {
    pub addr: usize,
    pub data_size: usize,
}

impl Block {
    /// One past the last heap byte the block covers, header included.
    pub open spec fn spec_end(self) -> int {
        self.addr + BLOCK_HEADER_SIZE + self.data_size
    }

    /// Address of the block's payload, just after the header.
    pub open spec fn spec_payload(self) -> int {
        self.addr + BLOCK_HEADER_SIZE
    }

    /// Bytes the block covers in the heap: header plus payload.
    pub fn size_of(&self) -> (r: usize)
        requires
            self.addr + BLOCK_HEADER_SIZE + self.data_size <= usize::MAX,
        ensures
            r == BLOCK_HEADER_SIZE + self.data_size,
            self.addr + r == self.spec_end(),
    {
        BLOCK_HEADER_SIZE + self.data_size
    }
}

/// Smallest multiple of `align` at or above `address` (`align > 0`).
pub open spec fn spec_align_up(address: int, align: int) -> int {
    if address % align == 0 {
        address
    } else {
        address + align - address % align
    }
}

/// The aligned address at which a block placed after a block ending at
/// `prev_end` would put its payload: the first `align`-multiple at or
/// after `prev_end` plus one header.
pub open spec fn spec_candidate(prev_end: int, align: int) -> int {
    spec_align_up(prev_end + BLOCK_HEADER_SIZE, align)
}

pub proof fn lemma_align_up(address: int, align: int)
    requires
        address >= 0,
        align > 0,
    ensures
        spec_align_up(address, align) % align == 0,
        address <= spec_align_up(address, align) < address + align,
{
    lemma_fundamental_div_mod(address, align);
    if address % align != 0 {
        let q = address / align;
        let m = address % align;
        let r = address + align - m;
        assert(address == align * q + m);
        assert(r == align * (q + 1)) by (nonlinear_arith)
            requires
                address == align * q + m,
                r == address + align - m,
        ;
        assert((align * (q + 1)) % align == 0) by (nonlinear_arith)
            requires
                align > 0,
        ;
    }
}

/// Payload addresses of every block but the sentinel, in list order.
pub open spec fn payload_ptrs(s: Seq<Block>) -> Seq<int> {
    Seq::new((s.len() - 1) as nat, |k: int| s[k + 1].spec_payload())
}

/// Index of the first block at or after position `i` (never the sentinel)
/// whose payload sits exactly at `ptr`.
pub open spec fn find_payload_from(s: Seq<Block>, i: int, ptr: int) -> Option<int>
    decreases s.len() - i,
{
    if i < 1 || i >= s.len() {
        None
    } else if s[i].spec_payload() == ptr {
        Some(i)
    } else {
        find_payload_from(s, i + 1, ptr)
    }
}

/// Index of the block whose payload sits exactly at `ptr`, if any.
pub open spec fn find_payload(s: Seq<Block>, ptr: int) -> Option<int> {
    find_payload_from(s, 1, ptr)
}

/// What one deallocation does to the block list: unlinks the block whose
/// payload is exactly `ptr`, and leaves the list alone when no block
/// matches.
pub open spec fn dealloc_model(s: Seq<Block>, ptr: int) -> Seq<Block> {
    match find_payload(s, ptr) {
        Some(i) => s.remove(i),
        None => s,
    }
}

/// The scan for a payload address gives the same answer whether it starts
/// at position one or at any position it reaches without a match.
proof fn lemma_find_payload_skip(s: Seq<Block>, i: int, ptr: int)
    requires
        1 <= i <= s.len(),
        forall|j: int| 1 <= j < i ==> #[trigger] s[j].spec_payload() != ptr,
    ensures
        find_payload(s, ptr) == find_payload_from(s, i, ptr),
    decreases i,
{
    if i > 1 {
        lemma_find_payload_skip(s, i - 1, ptr);
    }
}

/// When position `i` holds the first matching payload, the scan finds it.
proof fn lemma_find_payload_first(s: Seq<Block>, i: int, ptr: int)
    requires
        1 <= i < s.len(),
        s[i].spec_payload() == ptr,
        forall|j: int| 1 <= j < i ==> #[trigger] s[j].spec_payload() != ptr,
    ensures
        find_payload(s, ptr) == Some(i),
{
    lemma_find_payload_skip(s, i, ptr);
}

/// When no payload matches, the scan finds nothing.
proof fn lemma_find_payload_from_none(s: Seq<Block>, n: int, ptr: int)
    requires
        n == s.len(),
        n >= 1,
        forall|j: int| 1 <= j < n ==> #[trigger] s[j].spec_payload() != ptr,
    ensures
        find_payload(s, ptr) == None::<int>,
{
    lemma_find_payload_skip(s, n, ptr);
}

/// The block list after deallocating `order[0]`, then `order[1]`, and so on.
pub open spec fn release_all(s: Seq<Block>, order: Seq<int>) -> Seq<Block>
    decreases order.len(),
{
    if order.len() == 0 {
        s
    } else {
        release_all(dealloc_model(s, order[0]), order.drop_first())
    }
}

/// With consecutive blocks in order, any earlier block ends at or before
/// any later block's header address.
proof fn lemma_seq_blocks_disjoint(s: Seq<Block>, i: int, j: int)
    requires
        forall|k: int| 0 <= k < s.len() - 1 ==> #[trigger] s[k].spec_end() <= s[k + 1].addr,
        0 <= i < j < s.len(),
    ensures
        s[i].spec_end() <= s[j].addr,
    decreases j - i,
{
    if j == i + 1 {
        assert(s[i].spec_end() <= s[i + 1].addr);
    } else {
        lemma_seq_blocks_disjoint(s, i, j - 1);
        assert(s[j - 1].spec_end() <= s[j].addr);
    }
}

/// Releasing every block but the sentinel — each exactly once, by its
/// payload address, in any order — returns the list to its initial
/// single-node state: just the sentinel. Deallocation removes exactly the
/// matching block and free gaps merge by construction, so no fragmented
/// residue is left behind.
pub proof fn lemma_release_all_restores_sentinel(s: Seq<Block>, order: Seq<int>)
    requires
        s.len() >= 1,
        forall|k: int| 0 <= k < s.len() - 1 ==> #[trigger] s[k].spec_end() <= s[k + 1].addr,
        order.to_multiset() == payload_ptrs(s).to_multiset(),
    ensures
        release_all(s, order) =~= seq![s[0]],
    decreases order.len(),
{
    broadcast use vstd::seq_lib::group_to_multiset_ensures;

    if order.len() == 0 {
        assert(order.to_multiset().len() == order.len());
        assert(payload_ptrs(s).to_multiset().len() == payload_ptrs(s).len());
        assert(payload_ptrs(s).len() == 0);
        assert(s.len() == 1);
        assert(release_all(s, order) == s);
    } else {
        let p = order[0];
        assert(order.contains(p));
        assert(payload_ptrs(s).to_multiset().count(p) > 0);
        assert(payload_ptrs(s).contains(p));
        let k = choose|k: int|
            0 <= k < payload_ptrs(s).len() && payload_ptrs(s)[k] == p;
        let i = k + 1;
        assert(1 <= i < s.len() && s[i].spec_payload() == p);
        assert forall|j: int| 1 <= j < i implies #[trigger] s[j].spec_payload() != p by {
            lemma_seq_blocks_disjoint(s, j, i);
            assert(s[j].spec_payload() <= s[j].spec_end() <= s[i].addr < s[i].spec_payload());
        }
        lemma_find_payload_first(s, i, p);
        let s2 = s.remove(i);
        assert(dealloc_model(s, p) == s2);
        assert(s2[0] == s[0]);
        assert forall|m: int| 0 <= m < s2.len() - 1 implies #[trigger] s2[m].spec_end() <= s2[m
            + 1].addr by {
            if m < i - 1 {
                assert(s2[m] == s[m] && s2[m + 1] == s[m + 1]);
                assert(s[m].spec_end() <= s[m + 1].addr);
            } else if m == i - 1 {
                assert(s2[m] == s[m] && s2[m + 1] == s[i + 1]);
                assert(s[i - 1].spec_end() <= s[i].addr);
                assert(s[i].spec_end() <= s[i + 1].addr);
            } else {
                assert(s2[m] == s[m + 1] && s2[m + 1] == s[m + 2]);
                assert(s[m + 1].spec_end() <= s[m + 2].addr);
            }
        }
        assert(payload_ptrs(s2) =~= payload_ptrs(s).remove(k)) by {
            assert forall|m: int| 0 <= m < payload_ptrs(s2).len() implies payload_ptrs(s2)[m]
                == payload_ptrs(s).remove(k)[m] by {
                if m < k {
                    assert(s2[m + 1] == s[m + 1]);
                } else {
                    assert(s2[m + 1] == s[m + 2]);
                }
            }
        }
        assert(payload_ptrs(s2).to_multiset() == payload_ptrs(s).to_multiset().remove(p)) by {
            assert(payload_ptrs(s).remove(k).to_multiset() =~= payload_ptrs(
                s,
            ).to_multiset().remove(payload_ptrs(s)[k]));
        }
        assert(order.drop_first().to_multiset() == order.to_multiset().remove(p)) by {
            assert(order.drop_first() =~= order.remove(0));
            assert(order.remove(0).to_multiset() =~= order.to_multiset().remove(order[0]));
        }
        lemma_release_all_restores_sentinel(s2, order.drop_first());
        assert(release_all(s, order) == release_all(s2, order.drop_first()));
    }
}

/// First-fit heap allocator. `blocks` is the allocated-block list in
/// strictly ascending address order; `blocks[0]` is the sentinel, which
/// always exists and is never allocated or released.
#[derive(Debug)]
pub struct SystemAllocator {
    heap_base: usize,
    heap_size: usize,
    blocks: Vec<Block>,
}

impl SystemAllocator {
    /// First heap address: where the sentinel block header sits.
    pub closed spec fn spec_heap_start(self) -> int {
        self.heap_base as int
    }

    /// One past the last heap address.
    pub closed spec fn spec_heap_end(self) -> int {
        self.heap_base + self.heap_size
    }

    /// The block list, for contracts.
    pub closed spec fn spec_blocks(self) -> Seq<Block> {
        self.blocks@
    }

    /// The allocator's invariant: the heap fits in the address space, the
    /// sentinel heads the list, consecutive blocks do not overlap (each
    /// ends at or before the next begins), and every block lies inside
    /// the heap.
    pub closed spec fn wf(self) -> bool {
        &&& self.heap_base + self.heap_size <= usize::MAX
        &&& BLOCK_HEADER_SIZE + SENTINEL_DATA_SIZE <= self.heap_size
        &&& self.blocks@.len() >= 1
        &&& self.blocks@[0].addr == self.heap_base
        &&& self.blocks@[0].data_size == SENTINEL_DATA_SIZE
        &&& forall|i: int| 0 <= i < self.blocks@.len() - 1
                ==> #[trigger] self.blocks@[i].spec_end() <= self.blocks@[i + 1].addr
        &&& forall|i: int| 0 <= i < self.blocks@.len()
                ==> #[trigger] self.blocks@[i].spec_end() <= self.heap_base + self.heap_size
    }

    /// Any earlier block ends at or before any later block begins; in
    /// particular no two blocks' byte ranges (headers and payloads alike)
    /// overlap.
    pub proof fn lemma_blocks_disjoint(self, i: int, j: int)
        requires
            self.wf(),
            0 <= i < j < self.spec_blocks().len(),
        ensures
            self.spec_blocks()[i].spec_end() <= self.spec_blocks()[j].addr,
        decreases j - i,
    {
        assert(self.spec_blocks() =~= self.blocks@);
        if j == i + 1 {
            assert(self.blocks@[i].spec_end() <= self.blocks@[i + 1].addr);
        } else {
            self.lemma_blocks_disjoint(i, j - 1);
            assert(self.blocks@[j - 1].spec_end() <= self.blocks@[j].addr);
        }
    }

    /// Upper bound of the free gap after block `i`: the next block's
    /// header address, or the heap's end for the gap after the last block.
    pub open spec fn spec_gap_bound(self, i: int) -> int {
        if i + 1 < self.spec_blocks().len() {
            self.spec_blocks()[i + 1].addr as int
        } else {
            self.spec_heap_end()
        }
    }

    /// Whether a payload of `size` bytes aligned to `align` fits in the
    /// free gap after block `i`: the aligned payload address must leave
    /// the payload end strictly below the gap's bound.
    pub open spec fn spec_fits(self, i: int, size: int, align: int) -> bool {
        spec_candidate(self.spec_blocks()[i].spec_end(), align) + size < self.spec_gap_bound(i)
    }

    /// Least gap index at or after `i` where the request fits.
    pub open spec fn spec_first_fit_from(self, i: int, size: int, align: int) -> Option<int>
        decreases self.spec_blocks().len() - i,
    {
        if i < 0 || i >= self.spec_blocks().len() {
            None
        } else if self.spec_fits(i, size, align) {
            Some(i)
        } else {
            self.spec_first_fit_from(i + 1, size, align)
        }
    }

    /// The gap the first-fit scan chooses for a request, if any fits.
    pub open spec fn spec_first_fit(self, size: int, align: int) -> Option<int> {
        self.spec_first_fit_from(0, size, align)
    }

    /// When no gap before `i` fits, the scan's answer from the start is
    /// its answer from `i`.
    proof fn lemma_first_fit_from(self, i: int, size: int, align: int)
        requires
            0 <= i <= self.spec_blocks().len(),
            forall|j: int| 0 <= j < i ==> !self.spec_fits(j, size, align),
        ensures
            self.spec_first_fit(size, align) == self.spec_first_fit_from(i, size, align),
        decreases i,
    {
        if i > 0 {
            self.lemma_first_fit_from(i - 1, size, align);
        }
    }

    /// Creates an allocator owning `heap_size` bytes starting at
    /// `heap_base`, with only the sentinel block in its list.
    pub fn new(heap_base: usize, heap_size: usize) -> (r: Self)
        requires
            heap_base + heap_size <= usize::MAX,
            BLOCK_HEADER_SIZE + SENTINEL_DATA_SIZE <= heap_size,
        ensures
            r.wf(),
            r.spec_heap_start() == heap_base,
            r.spec_heap_end() == heap_base + heap_size,
            r.spec_blocks() =~= seq![Block { addr: heap_base, data_size: SENTINEL_DATA_SIZE }],
    {
        let mut blocks: Vec<Block> = Vec::new();
        blocks.push(Block { addr: heap_base, data_size: SENTINEL_DATA_SIZE });
        SystemAllocator { heap_base, heap_size, blocks }
    }

    /// First heap address.
    pub fn heap_start(&self) -> (r: usize)
        ensures
            r == self.spec_heap_start(),
    {
        self.heap_base
    }

    /// One past the last heap address.
    pub fn heap_end(&self) -> (r: usize)
        requires
            self.wf(),
        ensures
            r == self.spec_heap_end(),
    {
        self.heap_base + self.heap_size
    }

    /// The allocated-block list, sentinel first.
    pub fn block_list(&self) -> (r: &Vec<Block>)
        ensures
            r@ == self.spec_blocks(),
    {
        &self.blocks
    }

    /// First-fit allocation. Scans the gaps between consecutive blocks in
    /// ascending address order and places the payload at the first aligned
    /// address that leaves enough room before the next block (or before
    /// the heap's end, for the tail gap). Returns the payload address, or
    /// `None` exactly when no gap fits the request.
    pub fn allocate(&mut self, size: usize, align: usize) -> (r: Option<usize>)
        requires
            old(self).wf(),
            align > 0,
        ensures
            final(self).wf(),
            final(self).spec_heap_start() == old(self).spec_heap_start(),
            final(self).spec_heap_end() == old(self).spec_heap_end(),
            match r {
                Some(p) => {
                    let ff = old(self).spec_first_fit(size as int, align as int);
                    &&& ff is Some
                    &&& p == spec_candidate(
                        old(self).spec_blocks()[ff.unwrap()].spec_end(),
                        align as int,
                    )
                    &&& p as int % align as int == 0
                    &&& p >= BLOCK_HEADER_SIZE
                    &&& final(self).spec_blocks() == old(self).spec_blocks().insert(
                        ff.unwrap() + 1,
                        (Block { addr: (p - BLOCK_HEADER_SIZE) as usize, data_size: size }),
                    )
                },
                None => {
                    &&& old(self).spec_first_fit(size as int, align as int) is None
                    &&& final(self).spec_blocks() == old(self).spec_blocks()
                },
            },
    {
        let n = self.blocks.len();
        let mut idx: usize = 0;
        while idx < n
            invariant
                *self == *old(self),
                old(self).wf(),
                align > 0,
                n == self.spec_blocks().len(),
                idx <= n,
                forall|j: int| 0 <= j < idx ==> !old(self).spec_fits(j, size as int, align as int),
            decreases n - idx,
        {
            let ghost s = self.spec_blocks();
            proof {
                assert(s[idx as int].spec_end() <= self.spec_heap_end());
                if idx as int + 1 < n {
                    assert(s[idx as int + 1].spec_end() <= self.spec_heap_end());
                }
            }
            let prev = self.blocks[idx];
            let end_prev = prev.addr + BLOCK_HEADER_SIZE + prev.data_size;
            let bound = if idx + 1 < n {
                self.blocks[idx + 1].addr
            } else {
                self.heap_end()
            };
            let ghost pot_spec = spec_candidate(prev.spec_end(), align as int);
            proof {
                lemma_align_up(end_prev + BLOCK_HEADER_SIZE, align as int);
                assert(bound == self.spec_gap_bound(idx as int));
            }
            let cand: Option<usize> = if end_prev <= usize::MAX - BLOCK_HEADER_SIZE {
                let base = end_prev + BLOCK_HEADER_SIZE;
                let rem = base % align;
                if rem == 0 {
                    Some(base)
                } else if base <= usize::MAX - (align - rem) {
                    Some(base + (align - rem))
                } else {
                    None
                }
            } else {
                None
            };
            match cand {
                Some(pot) => {
                    proof {
                        assert(pot == pot_spec);
                    }
                    if pot < bound && bound - pot > size {
                        let b = Block { addr: pot - BLOCK_HEADER_SIZE, data_size: size };
                        proof {
                            assert(old(self).spec_fits(idx as int, size as int, align as int));
                            old(self).lemma_first_fit_from(idx as int, size as int, align as int);
                            assert(old(self).spec_first_fit(size as int, align as int)
                                == Some(idx as int));
                        }
                        self.blocks.insert(idx + 1, b);
                        proof {
                            let t = self.spec_blocks();
                            assert(t == s.insert(idx as int + 1, b));
                            assert forall|k: int| 0 <= k < t.len() - 1 implies #[trigger] t[
                                k].spec_end() <= t[k + 1].addr by {
                                if k < idx as int {
                                    assert(t[k] == s[k] && t[k + 1] == s[k + 1]);
                                    assert(s[k].spec_end() <= s[k + 1].addr);
                                } else if k == idx as int {
                                    assert(t[k] == s[k] && t[k + 1] == b);
                                } else if k == idx as int + 1 {
                                    assert(t[k] == b && t[k + 1] == s[k]);
                                } else {
                                    assert(t[k] == s[k - 1] && t[k + 1] == s[k]);
                                    assert(s[k - 1].spec_end() <= s[k].addr);
                                }
                            }
                            assert forall|k: int| 0 <= k < t.len() implies #[trigger] t[
                                k].spec_end() <= self.spec_heap_end() by {
                                if k < idx as int + 1 {
                                    assert(t[k] == s[k]);
                                    assert(s[k].spec_end() <= self.spec_heap_end());
                                } else if k == idx as int + 1 {
                                    if idx as int + 1 < s.len() {
                                        assert(s[idx as int + 1].spec_end()
                                            <= self.spec_heap_end());
                                    }
                                } else {
                                    assert(t[k] == s[k - 1]);
                                    assert(s[k - 1].spec_end() <= self.spec_heap_end());
                                }
                            }
                            assert(t[0] == s[0]);
                        }
                        return Some(pot);
                    } else {
                        proof {
                            assert(!old(self).spec_fits(idx as int, size as int, align as int));
                        }
                    }
                },
                None => {
                    proof {
                        assert(pot_spec > usize::MAX);
                        assert(!old(self).spec_fits(idx as int, size as int, align as int));
                    }
                },
            }
            idx = idx + 1;
        }
        proof {
            old(self).lemma_first_fit_from(n as int, size as int, align as int);
        }
        None
    }

    /// Deallocation. Recovers the header address from the payload pointer
    /// and scans the list (never the sentinel) for the block whose payload
    /// sits exactly at `ptr`; unlinks it when found and silently does
    /// nothing otherwise, so a pointer that no earlier allocation returned
    /// leaves the list untouched.
    pub fn deallocate(&mut self, ptr: usize)
        requires
            old(self).wf(),
        ensures
            final(self).wf(),
            final(self).spec_heap_start() == old(self).spec_heap_start(),
            final(self).spec_heap_end() == old(self).spec_heap_end(),
            final(self).spec_blocks() == dealloc_model(old(self).spec_blocks(), ptr as int),
    {
        let n = self.blocks.len();
        let mut idx: usize = 1;
        while idx < n
            invariant
                *self == *old(self),
                old(self).wf(),
                n == self.spec_blocks().len(),
                1 <= idx <= n,
                forall|j: int| 1 <= j < idx
                    ==> #[trigger] old(self).spec_blocks()[j].spec_payload() != ptr as int,
            decreases n - idx,
        {
            let ghost s = self.spec_blocks();
            proof {
                assert(s[idx as int].spec_end() <= self.spec_heap_end());
            }
            let b = self.blocks[idx];
            if b.addr + BLOCK_HEADER_SIZE == ptr {
                proof {
                    lemma_find_payload_first(s, idx as int, ptr as int);
                }
                self.blocks.remove(idx);
                proof {
                    let t = self.spec_blocks();
                    assert(t == s.remove(idx as int));
                    assert forall|k: int| 0 <= k < t.len() - 1 implies #[trigger] t[
                        k].spec_end() <= t[k + 1].addr by {
                        if k < idx as int - 1 {
                            assert(t[k] == s[k] && t[k + 1] == s[k + 1]);
                            assert(s[k].spec_end() <= s[k + 1].addr);
                        } else if k == idx as int - 1 {
                            assert(t[k] == s[k] && t[k + 1] == s[idx as int + 1]);
                            assert(s[idx as int - 1].spec_end() <= s[idx as int].addr);
                            assert(s[idx as int].spec_end() <= s[idx as int + 1].addr);
                        } else {
                            assert(t[k] == s[k + 1] && t[k + 1] == s[k + 2]);
                            assert(s[k + 1].spec_end() <= s[k + 2].addr);
                        }
                    }
                    assert forall|k: int| 0 <= k < t.len() implies #[trigger] t[k].spec_end()
                        <= self.spec_heap_end() by {
                        if k < idx as int {
                            assert(t[k] == s[k]);
                            assert(s[k].spec_end() <= self.spec_heap_end());
                        } else {
                            assert(t[k] == s[k + 1]);
                            assert(s[k + 1].spec_end() <= self.spec_heap_end());
                        }
                    }
                    assert(t[0] == s[0]);
                }
                return ;
            }
            idx = idx + 1;
        }
        proof {
            lemma_find_payload_from_none(self.spec_blocks(), n as int, ptr as int);
        }
    }
}

/// First heap address of `a`.
pub fn heap_start(a: &SystemAllocator) -> (r: usize)
    ensures
        r == a.spec_heap_start(),
{
    a.heap_start()
}

/// One past the last heap address of `a`.
pub fn heap_end(a: &SystemAllocator) -> (r: usize)
    requires
        a.wf(),
    ensures
        r == a.spec_heap_end(),
{
    a.heap_end()
}

/// Smallest multiple of `alignment` at or above `address`.
pub fn align_address(address: usize, alignment: usize) -> (r: usize)
    requires
        alignment > 0,
        address + alignment <= usize::MAX,
    ensures
        r == spec_align_up(address as int, alignment as int),
        r % alignment == 0,
        address <= r < address + alignment,
{
    proof {
        lemma_align_up(address as int, alignment as int);
    }
    let rem = address % alignment;
    if rem == 0 {
        address
    } else {
        address + (alignment - rem)
    }
}

} // verus!
