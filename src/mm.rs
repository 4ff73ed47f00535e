use vstd::prelude::*;
use crate::config::PAGE_SIZE;

verus! {

/// Access rights of one mapped page.
#[derive(Clone, Copy, Debug, PartialEq, Eq, Structural)]
pub struct MapPermission {
    pub readable: bool,
    pub writable: bool,
    pub executable: bool,
    pub user: bool,
}

impl MapPermission {
    /// Page-table flag layout: R at bit 1, W at bit 2, X at bit 3, U at bit 4.
    pub open spec fn bits_spec(self) -> nat {
        (if self.readable { 2nat } else { 0nat }) + (if self.writable { 4nat } else { 0nat }) + (
        if self.executable { 8nat } else { 0nat }) + (if self.user { 16nat } else { 0nat })
    }

    pub fn bits(&self) -> (r: u8)
        ensures
            r as nat == self.bits_spec(),
    {
        let mut b: u8 = 0;
        if self.readable {
            b = b + 2;
        }
        if self.writable {
            b = b + 4;
        }
        if self.executable {
            b = b + 8;
        }
        if self.user {
            b = b + 16;
        }
        b
    }
}

/// Decodes the three low wire bits of a mapping request (bit 0 readable, bit 1
/// writable, bit 2 executable) into a user-accessible permission.
pub open spec fn decoded(port: nat) -> Option<MapPermission> {
    if 0 < port < 8 {
        Some(
            MapPermission {
                readable: port % 2 == 1,
                writable: (port / 2) % 2 == 1,
                executable: (port / 4) % 2 == 1,
                user: true,
            },
        )
    } else {
        None
    }
}

/// Decodes a wire permission; `None` for zero or for any bit above the three
/// defined flags.
pub fn decode_permission(port: usize) -> (r: Option<MapPermission>)
    ensures
        r == decoded(port as nat),
        r.is_some() <==> 0 < port < 8,
        r matches Some(p) ==> p.bits_spec() == 2 * port + 16,
{
    if port == 0 || port >= 8 {
        return None;
    }
    Some(
        MapPermission {
            readable: port % 2 == 1,
            writable: (port / 2) % 2 == 1,
            executable: (port / 4) % 2 == 1,
            user: true,
        },
    )
}

/// One page-table entry: the physical frame backing a virtual page, and its rights.
#[derive(Clone, Copy, Debug, PartialEq, Eq, Structural)]
pub struct PageTableEntry {
    pub ppn: usize,
    pub perm: MapPermission,
}

/// Number of entries of `s` that are `false` (free frames).
pub open spec fn count_free(s: Seq<bool>) -> nat
    decreases s.len(),
{
    if s.len() == 0 {
        0
    } else {
        count_free(s.drop_last()) + (if s.last() { 0nat } else { 1nat })
    }
}

/// Virtual page number of address `va`.
pub open spec fn vpn_of(va: nat) -> nat {
    va / (PAGE_SIZE as nat)
}

/// First virtual page number past the range `[start, start + len)`, for `len > 0`.
pub open spec fn end_vpn(start: nat, len: nat) -> nat {
    ((start + len - 1) as nat) / (PAGE_SIZE as nat) + 1
}

/// Virtual page `v` holds some address of `[start, start + len)`.
pub open spec fn in_region(start: nat, len: nat, v: nat) -> bool {
    len > 0 && start / (PAGE_SIZE as nat) <= v < end_vpn(start, len)
}

/// The address space of one task: a linear page table over `num_pages` virtual
/// pages, the frame allocator, and the physical memory of `num_frames` frames.
pub struct MemorySet {
    pages: Vec<Option<PageTableEntry>>,
    frame_used: Vec<bool>,
    phys: Vec<u8>,
}

impl MemorySet {
    pub closed spec fn num_pages(self) -> nat {
        self.pages@.len()
    }

    pub closed spec fn num_frames(self) -> nat {
        self.frame_used@.len()
    }

    /// The entry of virtual page `vpn`; `None` when unmapped or outside the space.
    pub closed spec fn entry(self, vpn: nat) -> Option<PageTableEntry> {
        if vpn < self.pages@.len() {
            self.pages@[vpn as int]
        } else {
            None
        }
    }

    /// Physical memory, byte by byte.
    pub closed spec fn mem(self) -> Seq<u8> {
        self.phys@
    }

    /// Number of frames not backing any page.
    pub closed spec fn free_frames(self) -> nat {
        count_free(self.frame_used@)
    }

    pub closed spec fn wf(self) -> bool {
        &&& self.pages@.len() * PAGE_SIZE <= usize::MAX
        &&& self.frame_used@.len() * PAGE_SIZE <= usize::MAX
        &&& self.phys@.len() == self.frame_used@.len() * PAGE_SIZE
        &&& forall|v: int|
            #![trigger self.pages@[v]]
            0 <= v < self.pages@.len() && self.pages@[v].is_some() ==> {
                let p = self.pages@[v].unwrap().ppn as int;
                0 <= p < self.frame_used@.len() && self.frame_used@[p]
            }
        &&& forall|v: int, w: int|
            #![trigger self.pages@[v], self.pages@[w]]
            0 <= v < self.pages@.len() && 0 <= w < self.pages@.len() && v != w
                && self.pages@[v].is_some() && self.pages@[w].is_some() ==> self.pages@[v].unwrap().ppn
                != self.pages@[w].unwrap().ppn
    }

    /// Physical address that virtual address `va` resolves to, if its page is mapped.
    pub open spec fn translate_spec(self, va: nat) -> Option<nat> {
        match self.entry(vpn_of(va)) {
            Some(e) => Some((e.ppn * PAGE_SIZE + va % (PAGE_SIZE as nat)) as nat),
            None => None,
        }
    }

    /// The byte a user sees at virtual address `va`, if mapped.
    pub open spec fn byte_at(self, va: nat) -> Option<u8> {
        match self.translate_spec(va) {
            Some(pa) => Some(self.mem()[pa as int]),
            None => None,
        }
    }

    /// `post` is this space with `bytes` stored at `[va, va + bytes.len())`,
    /// mappings and frame counts unchanged.
    pub open spec fn written(self, post: Self, va: nat, bytes: Seq<u8>) -> bool {
        &&& post.num_pages() == self.num_pages()
        &&& post.num_frames() == self.num_frames()
        &&& forall|v: nat| #![trigger post.entry(v)] post.entry(v) == self.entry(v)
        &&& forall|a: nat|
            #![trigger post.byte_at(a)]
            post.byte_at(a) == if va <= a < va + bytes.len() {
                Some(bytes[a - va])
            } else {
                self.byte_at(a)
            }
    }

    /// `post` is this space with every page of `[start, start + len)` mapped
    /// with `perm` to zero-filled memory, the rest unchanged.
    pub open spec fn mapped_into(self, post: Self, start: nat, len: nat, perm: MapPermission) -> bool {
        &&& post.num_pages() == self.num_pages()
        &&& post.num_frames() == self.num_frames()
        &&& forall|v: nat| #![trigger post.entry(v)]
            if in_region(start, len, v) {
                post.entry(v) matches Some(e) && e.perm == perm
            } else {
                post.entry(v) == self.entry(v)
            }
        &&& forall|a: nat| #![trigger post.byte_at(a)]
            post.byte_at(a) == if in_region(start, len, vpn_of(a)) {
                Some(0u8)
            } else {
                self.byte_at(a)
            }
    }

    /// `post` is this space with every page of `[start, start + len)`
    /// unmapped, the rest unchanged.
    pub open spec fn unmapped_from(self, post: Self, start: nat, len: nat) -> bool {
        &&& post.num_pages() == self.num_pages()
        &&& post.num_frames() == self.num_frames()
        &&& forall|v: nat| #![trigger post.entry(v)]
            post.entry(v) == if in_region(start, len, v) {
                None
            } else {
                self.entry(v)
            }
        &&& forall|a: nat| #![trigger post.byte_at(a)]
            post.byte_at(a) == if in_region(start, len, vpn_of(a)) {
                None
            } else {
                self.byte_at(a)
            }
    }

    /// Every address of `[va, va + len)` is mapped.
    pub open spec fn range_mapped(self, va: nat, len: nat) -> bool {
        forall|a: nat| #![trigger self.translate_spec(a)] va <= a < va + len ==> self.translate_spec(a).is_some()
    }

    proof fn lemma_translate_in_bounds(self, va: nat)
        requires
            self.wf(),
            self.translate_spec(va).is_some(),
        ensures
            self.translate_spec(va).unwrap() < self.mem().len(),
            va < self.num_pages() * PAGE_SIZE,
    {
        let v = vpn_of(va);
        assert(self.pages@[v as int].is_some());
    }

    proof fn lemma_translate_injective(self, a: nat, b: nat)
        requires
            self.wf(),
            self.translate_spec(a).is_some(),
            self.translate_spec(b).is_some(),
            a != b,
        ensures
            self.translate_spec(a) != self.translate_spec(b),
    {
        let va = vpn_of(a);
        let vb = vpn_of(b);
        assert(self.pages@[va as int].is_some() && self.pages@[vb as int].is_some());
    }

    /// An address space of `num_pages` unmapped virtual pages over `num_frames`
    /// zeroed, free frames.
    pub fn new(num_pages: usize, num_frames: usize) -> (r: Self)
        requires
            num_pages * PAGE_SIZE <= usize::MAX,
            num_frames * PAGE_SIZE <= usize::MAX,
        ensures
            r.wf(),
            r.num_pages() == num_pages,
            r.num_frames() == num_frames,
            r.free_frames() == num_frames,
            forall|v: nat| #![trigger r.entry(v)] r.entry(v).is_none(),
            forall|p: int| 0 <= p < r.mem().len() ==> r.mem()[p] == 0,
    {
        let mut pages: Vec<Option<PageTableEntry>> = Vec::new();
        let mut i: usize = 0;
        while i < num_pages
            invariant
                i <= num_pages,
                pages@.len() == i,
                forall|v: int| 0 <= v < i ==> pages@[v].is_none(),
            decreases num_pages - i,
        {
            pages.push(None);
            i = i + 1;
        }
        let mut frame_used: Vec<bool> = Vec::new();
        let mut f: usize = 0;
        while f < num_frames
            invariant
                f <= num_frames,
                frame_used@.len() == f,
                count_free(frame_used@) == f,
                forall|p: int| 0 <= p < f ==> !frame_used@[p],
            decreases num_frames - f,
        {
            let ghost before = frame_used@;
            frame_used.push(false);
            assert(frame_used@.drop_last() =~= before);
            f = f + 1;
        }
        let total: usize = num_frames * PAGE_SIZE;
        let mut phys: Vec<u8> = Vec::new();
        let mut k: usize = 0;
        while k < total
            invariant
                k <= total,
                phys@.len() == k,
                forall|p: int| 0 <= p < k ==> phys@[p] == 0,
            decreases total - k,
        {
            phys.push(0);
            k = k + 1;
        }
        MemorySet { pages, frame_used, phys }
    }

    /// Resolves virtual address `va` to its physical address in this space.
    pub fn translate(&self, va: usize) -> (r: Option<usize>)
        requires
            self.wf(),
        ensures
            r matches Some(pa) ==> self.translate_spec(va as nat) == Some(pa as nat),
            r.is_none() ==> self.translate_spec(va as nat).is_none(),
    {
        let vpn = va / PAGE_SIZE;
        if vpn >= self.pages.len() {
            return None;
        }
        match self.pages[vpn] {
            Some(e) => {
                proof {
                    self.lemma_translate_in_bounds(va as nat);
                }
                Some(e.ppn * PAGE_SIZE + va % PAGE_SIZE)
            },
            None => None,
        }
    }

    /// Whether `[va, va + len)` is mapped, checked address by address.
    fn check_range(&self, va: usize, len: usize) -> (ok: bool)
        requires
            self.wf(),
        ensures
            ok == self.range_mapped(va as nat, len as nat),
    {
        let mut i: usize = 0;
        while i < len
            invariant
                i <= len,
                self.wf(),
                forall|a: nat| #![trigger self.translate_spec(a)] va <= a < va + i ==> self.translate_spec(a).is_some(),
            decreases len - i,
        {
            if i > usize::MAX - va {
                proof {
                    let a = (va + i) as nat;
                    if self.translate_spec(a).is_some() {
                        self.lemma_translate_in_bounds(a);
                    }
                }
                return false;
            }
            if self.translate(va + i).is_none() {
                return false;
            }
            i = i + 1;
        }
        true
    }

    /// Copies `bytes` into user memory at `[va, va + bytes.len())`. When some
    /// address of that range is unmapped, returns false and writes nothing.
    pub fn copy_out(&mut self, va: usize, bytes: &Vec<u8>) -> (ok: bool)
        requires
            old(self).wf(),
        ensures
            final(self).wf(),
            ok == old(self).range_mapped(va as nat, bytes@.len()),
            !ok ==> *final(self) == *old(self),
            ok ==> old(self).written(*final(self), va as nat, bytes@),
    {
        if !self.check_range(va, bytes.len()) {
            return false;
        }
        let ghost start = *self;
        let mut i: usize = 0;
        while i < bytes.len()
            invariant
                i <= bytes@.len(),
                self.wf(),
                start.wf(),
                start.range_mapped(va as nat, bytes@.len()),
                self.pages@ == start.pages@,
                self.frame_used@ == start.frame_used@,
                forall|a: nat|
                    #![trigger self.byte_at(a)]
                    self.byte_at(a) == if va <= a < va + i {
                        Some(bytes@[a - va])
                    } else {
                        start.byte_at(a)
                    },
            decreases bytes@.len() - i,
        {
            let ghost cur = *self;
            assert(start.translate_spec((va + i) as nat).is_some());
            proof {
                start.lemma_translate_in_bounds((va + i) as nat);
            }
            let a0: usize = va + i;
            let pa = match self.translate(a0) {
                Some(pa) => pa,
                None => { return false; },
            };
            proof {
                self.lemma_translate_in_bounds(a0 as nat);
            }
            self.phys[pa] = bytes[i];
            proof {
                assert forall|a: nat| #![trigger self.byte_at(a)]
                    self.byte_at(a) == if va <= a < va + i + 1 {
                        Some(bytes@[a - va])
                    } else {
                        start.byte_at(a)
                    } by {
                    assert(self.translate_spec(a) == cur.translate_spec(a));
                    assert(cur.byte_at(a) == if va <= a < va + i {
                        Some(bytes@[a - va])
                    } else {
                        start.byte_at(a)
                    });
                    if a != a0 && cur.translate_spec(a).is_some() {
                        cur.lemma_translate_injective(a, a0 as nat);
                    }
                }
            }
            i = i + 1;
        }
        true
    }

    /// Reads `len` bytes of user memory at `[va, va + len)`; `None` when some
    /// address of that range is unmapped.
    pub fn read_bytes(&self, va: usize, len: usize) -> (r: Option<Vec<u8>>)
        requires
            self.wf(),
        ensures
            r.is_some() == self.range_mapped(va as nat, len as nat),
            r matches Some(out) ==> out@.len() == len && forall|i: int|
                0 <= i < len ==> self.byte_at((va + i) as nat) == Some(#[trigger] out@[i]),
    {
        if !self.check_range(va, len) {
            return None;
        }
        let mut out: Vec<u8> = Vec::new();
        let mut i: usize = 0;
        while i < len
            invariant
                i <= len,
                self.wf(),
                self.range_mapped(va as nat, len as nat),
                out@.len() == i,
                forall|j: int| 0 <= j < i ==> self.byte_at((va + j) as nat) == Some(#[trigger] out@[j]),
            decreases len - i,
        {
            assert(self.translate_spec((va + i) as nat).is_some());
            proof {
                self.lemma_translate_in_bounds((va + i) as nat);
            }
            let a0: usize = va + i;
            let pa = match self.translate(a0) {
                Some(pa) => pa,
                None => { return None; },
            };
            proof {
                self.lemma_translate_in_bounds(a0 as nat);
            }
            out.push(self.phys[pa]);
            i = i + 1;
        }
        Some(out)
    }

    /// A mapping of `[start, start + len)` can be made: the range lies in the
    /// space, none of its pages is mapped, and enough frames are free.
    pub open spec fn can_map(self, start: nat, len: nat) -> bool {
        len == 0 || {
            &&& end_vpn(start, len) <= self.num_pages()
            &&& forall|v: nat| #![trigger self.entry(v)] in_region(start, len, v) ==> self.entry(v).is_none()
            &&& self.free_frames() >= end_vpn(start, len) - start / (PAGE_SIZE as nat)
        }
    }

    /// Every page of `[start, start + len)` lies in the space and is mapped.
    pub open spec fn can_unmap(self, start: nat, len: nat) -> bool {
        len == 0 || {
            &&& end_vpn(start, len) <= self.num_pages()
            &&& forall|v: nat| #![trigger self.entry(v)] in_region(start, len, v) ==> self.entry(v).is_some()
        }
    }

    proof fn lemma_count_step(s: Seq<bool>, p: int)
        requires
            0 <= p < s.len(),
        ensures
            count_free(s.subrange(0, p + 1)) == count_free(s.subrange(0, p)) + (if s[p] { 0nat } else { 1nat }),
    {
        assert(s.subrange(0, p + 1).drop_last() =~= s.subrange(0, p));
    }

    proof fn lemma_count_prefix(s: Seq<bool>, p: int)
        requires
            0 <= p <= s.len(),
        ensures
            count_free(s.subrange(0, p)) <= count_free(s),
        decreases s.len() - p,
    {
        if p < s.len() {
            Self::lemma_count_step(s, p);
            Self::lemma_count_prefix(s, p + 1);
        } else {
            assert(s.subrange(0, p) =~= s);
        }
    }

    /// Up to `n` free frames, in increasing order: all `n` of them when that
    /// many are free, else every free frame.
    fn collect_free_frames(&self, n: usize) -> (frames: Vec<usize>)
        requires
            self.wf(),
        ensures
            frames@.len() <= n,
            frames@.len() <= self.free_frames(),
            frames@.len() < n ==> frames@.len() == self.free_frames(),
            forall|k: int| 0 <= k < frames@.len() ==> {
                &&& (#[trigger] frames@[k]) < self.num_frames()
                &&& !self.frame_used@[frames@[k] as int]
            },
            forall|k: int, m: int| 0 <= k < m < frames@.len() ==> frames@[k] < frames@[m],
    {
        let mut frames: Vec<usize> = Vec::new();
        let mut p: usize = 0;
        while p < self.frame_used.len() && frames.len() < n
            invariant
                p <= self.frame_used@.len(),
                frames@.len() <= n,
                frames@.len() == count_free(self.frame_used@.subrange(0, p as int)),
                forall|k: int| 0 <= k < frames@.len() ==> {
                    &&& (#[trigger] frames@[k]) < p
                    &&& !self.frame_used@[frames@[k] as int]
                },
                forall|k: int, m: int| 0 <= k < m < frames@.len() ==> frames@[k] < frames@[m],
            decreases self.frame_used@.len() - p,
        {
            proof {
                Self::lemma_count_step(self.frame_used@, p as int);
            }
            if !self.frame_used[p] {
                frames.push(p);
            }
            p = p + 1;
        }
        proof {
            Self::lemma_count_prefix(self.frame_used@, p as int);
        }
        if frames.len() < n {
            assert(self.frame_used@.subrange(0, p as int) =~= self.frame_used@);
        }
        frames
    }

    /// Zero-fills free frame `ppn`; what users see is unchanged.
    fn zero_frame(&mut self, ppn: usize)
        requires
            old(self).wf(),
            ppn < old(self).num_frames(),
            !old(self).frame_used@[ppn as int],
        ensures
            final(self).wf(),
            final(self).pages@ == old(self).pages@,
            final(self).frame_used@ == old(self).frame_used@,
            forall|p: int| #![trigger final(self).phys@[p]]
                0 <= p < final(self).phys@.len() ==> final(self).phys@[p] == if ppn * PAGE_SIZE <= p < ppn * PAGE_SIZE + PAGE_SIZE {
                    0u8
                } else {
                    old(self).phys@[p]
                },
            forall|a: nat| #![trigger final(self).byte_at(a)] final(self).byte_at(a) == old(self).byte_at(a),
    {
        let ghost start = *self;
        let base: usize = ppn * PAGE_SIZE;
        let mut k: usize = 0;
        while k < PAGE_SIZE
            invariant
                k <= PAGE_SIZE,
                base == ppn * PAGE_SIZE,
                ppn < start.num_frames(),
                self.wf(),
                self.pages@ == start.pages@,
                self.frame_used@ == start.frame_used@,
                self.phys@.len() == start.phys@.len(),
                forall|p: int| #![trigger self.phys@[p]]
                    0 <= p < self.phys@.len() ==> self.phys@[p] == if base <= p < base + k {
                        0u8
                    } else {
                        start.phys@[p]
                    },
            decreases PAGE_SIZE - k,
        {
            self.phys[base + k] = 0;
            k = k + 1;
        }
        assert forall|a: nat| #![trigger self.byte_at(a)] self.byte_at(a) == start.byte_at(a) by {
            if self.translate_spec(a).is_some() {
                let v = vpn_of(a);
                assert(start.pages@[v as int].is_some());
                start.lemma_translate_in_bounds(a);
            }
        }
    }

    /// Maps `[start, start + len)` to fresh zero-filled frames with `perm`.
    /// Returns 0 on success; -1, with nothing changed, when the range leaves
    /// the space, overlaps a mapped page, or too few frames are free. A
    /// zero-length request maps nothing and succeeds.
    pub fn m_map(&mut self, start: usize, len: usize, perm: MapPermission) -> (r: isize)
        requires
            old(self).wf(),
        ensures
            final(self).wf(),
            r == 0 || r == -1,
            r == 0 <==> old(self).can_map(start as nat, len as nat),
            r == -1 ==> *final(self) == *old(self),
            r == 0 ==> old(self).mapped_into(*final(self), start as nat, len as nat, perm),
    {
        if len == 0 {
            return 0;
        }
        if start > usize::MAX - len {
            assert(!old(self).can_map(start as nat, len as nat)) by {
                assert((start + len - 1) as nat >= self.num_pages() * PAGE_SIZE);
            }
            return -1;
        }
        let svpn: usize = start / PAGE_SIZE;
        let evpn: usize = (start + len - 1) / PAGE_SIZE + 1;
        if evpn > self.pages.len() {
            return -1;
        }
        let mut v: usize = svpn;
        while v < evpn
            invariant
                svpn <= v <= evpn <= self.pages@.len(),
                self.wf(),
                *self == *old(self),
                len > 0,
                svpn == start / PAGE_SIZE,
                evpn == end_vpn(start as nat, len as nat),
                forall|w: nat| svpn <= w < v ==> (#[trigger] self.entry(w)).is_none(),
            decreases evpn - v,
        {
            if self.pages[v].is_some() {
                assert(self.entry(v as nat).is_some());
                assert(in_region(start as nat, len as nat, v as nat));
                return -1;
            }
            v = v + 1;
        }
        let n: usize = evpn - svpn;
        let frames = self.collect_free_frames(n);
        if frames.len() < n {
            return -1;
        }
        let ghost old_self = *self;
        let mut j: usize = 0;
        while j < n
            invariant
                j <= n,
                n == evpn - svpn,
                svpn == start / PAGE_SIZE,
                evpn == end_vpn(start as nat, len as nat),
                evpn <= old_self.pages@.len(),
                old_self.wf(),
                frames@.len() == n,
                forall|k: int| 0 <= k < frames@.len() ==> (#[trigger] frames@[k]) < old_self.num_frames(),
                forall|k: int| 0 <= k < frames@.len() ==> !old_self.frame_used@[#[trigger] frames@[k] as int],
                forall|k: int, m: int| 0 <= k < m < frames@.len() ==> frames@[k] < frames@[m],
                self.wf(),
                self.pages@.len() == old_self.pages@.len(),
                self.frame_used@.len() == old_self.frame_used@.len(),
                forall|k: int| j <= k < frames@.len() ==> !self.frame_used@[#[trigger] frames@[k] as int],
                forall|w: int| #![trigger self.pages@[w]] 0 <= w < self.pages@.len() ==>
                    self.pages@[w] == if svpn <= w < svpn + j {
                        Some(PageTableEntry { ppn: frames@[w - svpn], perm: perm })
                    } else {
                        old_self.pages@[w]
                    },
                forall|a: nat| #![trigger self.byte_at(a)]
                    self.byte_at(a) == if svpn <= vpn_of(a) && vpn_of(a) < svpn + j {
                        Some(0u8)
                    } else {
                        old_self.byte_at(a)
                    },
            decreases n - j,
        {
            let ppn = frames[j];
            let ghost before_zero = *self;
            self.zero_frame(ppn);
            let ghost zeroed = *self;
            self.frame_used[ppn] = true;
            let ghost used = *self;
            assert(used.wf());
            let vpn: usize = svpn + j;
            self.pages[vpn] = Some(PageTableEntry { ppn, perm });
            proof {
                assert forall|k: int| j + 1 <= k < frames@.len() implies !self.frame_used@[#[trigger] frames@[k] as int] by {
                    assert(frames@[j as int] < frames@[k]);
                }
                assert forall|w: int, x: int|
                    #![trigger self.pages@[w], self.pages@[x]]
                    0 <= w < self.pages@.len() && 0 <= x < self.pages@.len() && w != x
                        && self.pages@[w].is_some() && self.pages@[x].is_some() implies self.pages@[w].unwrap().ppn
                        != self.pages@[x].unwrap().ppn by {
                    if w == vpn {
                        assert(used.pages@[x].is_some());
                    } else if x == vpn {
                        assert(used.pages@[w].is_some());
                    } else {
                        assert(used.pages@[w].is_some() && used.pages@[x].is_some());
                    }
                }
                assert forall|w: int| #![trigger self.pages@[w]] 0 <= w < self.pages@.len() && self.pages@[w].is_some() implies {
                    let p = self.pages@[w].unwrap().ppn as int;
                    0 <= p < self.frame_used@.len() && self.frame_used@[p]
                } by {
                    if w != vpn {
                        assert(used.pages@[w].is_some());
                    }
                }
                assert(self.wf());
                assert forall|a: nat| #![trigger self.byte_at(a)]
                    self.byte_at(a) == if svpn <= vpn_of(a) && vpn_of(a) < svpn + j + 1 {
                        Some(0u8)
                    } else {
                        old_self.byte_at(a)
                    } by {
                    let w = vpn_of(a);
                    assert(before_zero.byte_at(a) == zeroed.byte_at(a));
                    assert(used.byte_at(a) == zeroed.byte_at(a));
                    if w == vpn {
                        let pa = ppn * PAGE_SIZE + a % (PAGE_SIZE as nat);
                        assert(self.translate_spec(a) == Some(pa as nat));
                        assert(zeroed.phys@[pa as int] == 0u8);
                    } else {
                        assert(self.translate_spec(a) == used.translate_spec(a));
                    }
                }
            }
            j = j + 1;
        }
        proof {
            assert forall|v: nat| #![trigger self.entry(v)]
                if in_region(start as nat, len as nat, v) {
                    self.entry(v) matches Some(e) && e.perm == perm
                } else {
                    self.entry(v) == old_self.entry(v)
                } by {
                if v < self.pages@.len() {
                    assert(self.entry(v) == self.pages@[v as int]);
                }
            }
        }
        0
    }

    /// Removes the mapping of every page of `[start, start + len)` and frees
    /// their frames. Returns 0 on success; -1, with nothing changed, when the
    /// range leaves the space or holds an unmapped page. A zero-length request
    /// removes nothing and succeeds.
    pub fn m_unmap(&mut self, start: usize, len: usize) -> (r: isize)
        requires
            old(self).wf(),
        ensures
            final(self).wf(),
            r == 0 || r == -1,
            r == 0 <==> old(self).can_unmap(start as nat, len as nat),
            r == -1 ==> *final(self) == *old(self),
            r == 0 ==> old(self).unmapped_from(*final(self), start as nat, len as nat),
    {
        if len == 0 {
            return 0;
        }
        if start > usize::MAX - len {
            assert(!old(self).can_unmap(start as nat, len as nat)) by {
                assert((start + len - 1) as nat >= self.num_pages() * PAGE_SIZE);
            }
            return -1;
        }
        let svpn: usize = start / PAGE_SIZE;
        let evpn: usize = (start + len - 1) / PAGE_SIZE + 1;
        if evpn > self.pages.len() {
            return -1;
        }
        let mut v: usize = svpn;
        while v < evpn
            invariant
                svpn <= v <= evpn <= self.pages@.len(),
                self.wf(),
                *self == *old(self),
                len > 0,
                svpn == start / PAGE_SIZE,
                evpn == end_vpn(start as nat, len as nat),
                forall|w: nat| svpn <= w < v ==> (#[trigger] self.entry(w)).is_some(),
            decreases evpn - v,
        {
            if self.pages[v].is_none() {
                assert(self.entry(v as nat).is_none());
                assert(in_region(start as nat, len as nat, v as nat));
                return -1;
            }
            v = v + 1;
        }
        let ghost old_self = *self;
        let mut u: usize = svpn;
        while u < evpn
            invariant
                svpn <= u <= evpn <= self.pages@.len(),
                svpn == start / PAGE_SIZE,
                evpn == end_vpn(start as nat, len as nat),
                old_self.wf(),
                self.wf(),
                self.pages@.len() == old_self.pages@.len(),
                self.frame_used@.len() == old_self.frame_used@.len(),
                self.phys@ == old_self.phys@,
                forall|w: int| #![trigger self.pages@[w]] 0 <= w < self.pages@.len() ==>
                    self.pages@[w] == if svpn <= w < u {
                        None
                    } else {
                        old_self.pages@[w]
                    },
                forall|w: nat| svpn <= w < evpn ==> (#[trigger] old_self.entry(w)).is_some(),
            decreases evpn - u,
        {
            assert(old_self.entry(u as nat).is_some());
            let ppn = match self.pages[u] {
                Some(e) => e.ppn,
                None => { return -1; },
            };
            let ghost before = *self;
            self.frame_used[ppn] = false;
            self.pages[u] = None;
            proof {
                assert forall|w: int| #![trigger self.pages@[w]] 0 <= w < self.pages@.len() && self.pages@[w].is_some() implies {
                    let p = self.pages@[w].unwrap().ppn as int;
                    0 <= p < self.frame_used@.len() && self.frame_used@[p]
                } by {
                    assert(before.pages@[w].is_some() && before.pages@[u as int].is_some());
                }
                assert forall|w: int, x: int|
                    #![trigger self.pages@[w], self.pages@[x]]
                    0 <= w < self.pages@.len() && 0 <= x < self.pages@.len() && w != x
                        && self.pages@[w].is_some() && self.pages@[x].is_some() implies self.pages@[w].unwrap().ppn
                        != self.pages@[x].unwrap().ppn by {
                    assert(before.pages@[w].is_some() && before.pages@[x].is_some());
                }
            }
            u = u + 1;
        }
        proof {
            assert forall|v: nat| #![trigger self.entry(v)]
                self.entry(v) == if in_region(start as nat, len as nat, v) {
                    None
                } else {
                    old_self.entry(v)
                } by {
                if v < self.pages@.len() {
                    assert(self.entry(v) == self.pages@[v as int]);
                }
            }
            assert forall|a: nat| #![trigger self.byte_at(a)]
                self.byte_at(a) == if in_region(start as nat, len as nat, vpn_of(a)) {
                    None
                } else {
                    old_self.byte_at(a)
                } by {
                let w = vpn_of(a);
                let e = if in_region(start as nat, len as nat, w) {
                    None
                } else {
                    old_self.entry(w)
                };
                assert(self.entry(w) == e);
            }
        }
        0
    }
}

} // verus!
