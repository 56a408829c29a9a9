//! The reserved guest window and its bump allocator.
//!
//! The window `[base, base + size)` is handed out front to back; every
//! allocation is rounded up to `SVC_ALIGN` bytes, recorded as a labelled
//! region and never taken back. The window also keeps the bytes planted in
//! its allocated part, `[base, cursor)`, so that the embedder can copy them
//! into guest memory.
use vstd::prelude::*;
use vstd::string::StringExecFns;

verus! {

/// Allocation unit of the window: every region is a multiple of it.
pub const SVC_ALIGN: u64 = 8;

/// Guest page may be read.
pub const PERM_READ: u32 = 1;

/// Guest page may be executed.
pub const PERM_EXEC: u32 = 4;

/// Permissions of the whole window: read and execute.
pub const PERM_READ_EXEC: u32 = PERM_READ | PERM_EXEC;

/// Why an operation on the window or the registry was refused.
#[derive(Debug, Clone, Copy, PartialEq, Eq, Structural)]
pub enum SvcError {
    /// A region of zero bytes was requested.
    EmptyRequest,
    /// The rest of the window is smaller than the rounded request.
    WindowExhausted,
    /// The bytes named lie outside the allocated part of the window.
    OutOfWindow,
    /// The next call number would not fit the immediate of `svc`.
    NumbersExhausted,
    /// The window or number space given at construction is unusable.
    BadConfig,
}

/// One labelled slice of the window.
#[derive(Debug, Clone)]
pub struct SvcMemRegion {
    pub virtual_address: u64,
    pub begin: u64,
    pub end: u64,
    pub perms: u32,
    pub label: String,
    pub library_file_path: Option<String>,
    pub offset: u64,
}

/// `n` rounded up to the allocation unit.
pub open spec fn align_up(n: nat) -> nat {
    if n % (SVC_ALIGN as nat) == 0 {
        n
    } else {
        (n - n % (SVC_ALIGN as nat) + SVC_ALIGN) as nat
    }
}

/// `n` zero bytes.
pub open spec fn zeros(n: nat) -> Seq<u8> {
    Seq::new(n, |_i: int| 0u8)
}

/// A region as the allocator records it, lying in `[base, cursor)`.
pub open spec fn region_ok(r: SvcMemRegion, base: u64, cursor: u64) -> bool {
    &&& base <= r.begin < r.end <= cursor
    &&& r.virtual_address == r.begin
    &&& (r.end - r.begin) % (SVC_ALIGN as int) == 0
    &&& r.perms == PERM_READ_EXEC
    &&& r.library_file_path is None
    &&& r.offset == 0
}

/// One successful allocation of `size` bytes labelled `label`: `region` is
/// handed out at the old cursor and appended, and the cursor moves past it.
pub open spec fn allocate_step(
    pre: WindowView,
    size: nat,
    label: Seq<char>,
    region: SvcMemRegion,
    post: WindowView,
) -> bool {
    &&& size > 0
    &&& region.begin == pre.cursor
    &&& region.end == pre.cursor + align_up(size)
    &&& region.virtual_address == region.begin
    &&& region.perms == PERM_READ_EXEC
    &&& region.label@ == label
    &&& region.library_file_path is None
    &&& region.offset == 0
    &&& post.base == pre.base
    &&& post.size == pre.size
    &&& post.record_labels == pre.record_labels
    &&& post.cursor == region.end
    &&& post.regions == pre.regions.push(region)
    &&& post.image == pre.image + zeros(align_up(size))
}

/// The state of a window: its bounds, the cursor, the regions handed out in
/// order, and the bytes of `[base, cursor)`.
pub struct WindowView {
    pub base: u64,
    pub size: u64,
    pub cursor: u64,
    pub record_labels: bool,
    pub regions: Seq<SvcMemRegion>,
    pub image: Seq<u8>,
}

impl WindowView {
    /// Bounds of a usable window: non-null, aligned, inside the address
    /// space, and small enough for its bytes to be held in memory.
    pub open spec fn valid_bounds(base: u64, size: u64) -> bool {
        &&& base != 0
        &&& base % SVC_ALIGN == 0
        &&& size % SVC_ALIGN == 0
        &&& base + size <= u64::MAX
        &&& size < usize::MAX
    }

    /// Bytes still free at the top of the window.
    pub open spec fn remaining(&self) -> int {
        self.base + self.size - self.cursor
    }

    pub open spec fn wf(&self) -> bool {
        &&& Self::valid_bounds(self.base, self.size)
        &&& self.base <= self.cursor <= self.base + self.size
        &&& self.cursor % SVC_ALIGN == 0
        &&& self.image.len() == self.cursor - self.base
        &&& forall|i: int|
            0 <= i < self.regions.len() ==> region_ok(#[trigger] self.regions[i], self.base, self.cursor)
        &&& forall|i: int, j: int|
            #![trigger self.regions[i], self.regions[j]]
            0 <= i < j < self.regions.len() ==> self.regions[i].end <= self.regions[j].begin
    }

    /// `self` is a later state of `old`: same bounds, the cursor not moved
    /// back, and every earlier region and byte kept as it was.
    pub open spec fn extends(&self, old: WindowView) -> bool {
        &&& self.base == old.base
        &&& self.size == old.size
        &&& self.record_labels == old.record_labels
        &&& old.cursor <= self.cursor
        &&& old.regions.len() <= self.regions.len()
        &&& self.regions.subrange(0, old.regions.len() as int) == old.regions
        &&& old.image.len() <= self.image.len()
        &&& self.image.subrange(0, old.image.len() as int) == old.image
    }
}

/// The reserved window and its bump allocator.
pub struct SvcWindow {
    base: u64,
    size: u64,
    cursor: u64,
    record_labels: bool,
    mem_region: Vec<SvcMemRegion>,
    image: Vec<u8>,
}

impl View for SvcWindow {
    type V = WindowView;

    closed spec fn view(&self) -> WindowView {
        WindowView {
            base: self.base,
            size: self.size,
            cursor: self.cursor,
            record_labels: self.record_labels,
            regions: self.mem_region@,
            image: self.image@,
        }
    }
}

impl SvcWindow {
    /// An empty window over `[base, base + size)`; refused unless the bounds
    /// are usable. With `record_labels` the default stubs are labelled with
    /// their handler's name.
    pub fn new(base: u64, size: u64, record_labels: bool) -> (r: Result<SvcWindow, SvcError>)
        ensures
            r is Ok <==> WindowView::valid_bounds(base, size),
            r matches Ok(w) ==> {
                &&& w@.wf()
                &&& w@.base == base
                &&& w@.size == size
                &&& w@.cursor == base
                &&& w@.record_labels == record_labels
                &&& w@.regions.len() == 0
                &&& w@.image.len() == 0
            },
            r matches Err(e) ==> e == SvcError::BadConfig,
    {
        if base == 0 || base % SVC_ALIGN != 0 || size % SVC_ALIGN != 0 || base > u64::MAX - size
            || size as u128 >= usize::MAX as u128 {
            return Err(SvcError::BadConfig);
        }
        Ok(SvcWindow { base, size, cursor: base, record_labels, mem_region: Vec::new(), image: Vec::new() })
    }

    pub fn base(&self) -> (r: u64)
        ensures
            r == self@.base,
    {
        self.base
    }

    pub fn size(&self) -> (r: u64)
        ensures
            r == self@.size,
    {
        self.size
    }

    /// Address that the next allocation will start at.
    pub fn cursor(&self) -> (r: u64)
        ensures
            r == self@.cursor,
    {
        self.cursor
    }

    /// Whether default stubs carry their handler's name in their label.
    pub fn record_labels(&self) -> (r: bool)
        ensures
            r == self@.record_labels,
    {
        self.record_labels
    }

    /// The regions handed out so far, in order of allocation.
    pub fn regions(&self) -> (r: &Vec<SvcMemRegion>)
        ensures
            r@ == self@.regions,
    {
        &self.mem_region
    }

    /// Hands out the next `size` bytes, rounded up to `SVC_ALIGN`, as a
    /// region labelled `label` with read and execute permission. The cursor
    /// moves past it and the new bytes read as zero. Refused, with nothing
    /// changed, for an empty request or when the rest of the window is too
    /// small.
    pub fn allocate(&mut self, size: usize, label: &str) -> (r: Result<SvcMemRegion, SvcError>)
        requires
            old(self)@.wf(),
        ensures
            final(self)@.wf(),
            r is Ok <==> (size > 0 && align_up(size as nat) <= old(self)@.remaining()),
            r matches Err(e) ==> {
                &&& final(self)@ == old(self)@
                &&& e == (if size == 0 {
                    SvcError::EmptyRequest
                } else {
                    SvcError::WindowExhausted
                })
            },
            r matches Ok(region) ==> allocate_step(
                old(self)@,
                size as nat,
                label@,
                region,
                final(self)@,
            ),
    {
        if size == 0 {
            return Err(SvcError::EmptyRequest);
        }
        let remaining: u64 = self.base + self.size - self.cursor;
        if size as u64 > remaining {
            return Err(SvcError::WindowExhausted);
        }
        let s: u64 = size as u64;
        let rem: u64 = s % SVC_ALIGN;
        let aligned: u64 = if rem == 0 {
            s
        } else {
            assert(remaining % 8 == 0);
            assert((s - rem) % 8 == 0);
            s - rem + SVC_ALIGN
        };
        assert(aligned <= remaining);
        let begin = self.cursor;
        let end = begin + aligned;
        let n: usize = aligned as usize;
        let mut i: usize = 0;
        while i < n
            invariant
                0 <= i <= n,
                n == aligned,
                old(self).image@.len() + n <= usize::MAX,
                self.base == old(self).base,
                self.size == old(self).size,
                self.record_labels == old(self).record_labels,
                self.cursor == old(self).cursor,
                self.mem_region@ == old(self).mem_region@,
                self.image@ == old(self).image@ + zeros(i as nat),
            decreases n - i,
        {
            self.image.push(0u8);
            i = i + 1;
            assert(self.image@ =~= old(self).image@ + zeros(i as nat));
        }
        let region = SvcMemRegion {
            virtual_address: begin,
            begin,
            end,
            perms: PERM_READ_EXEC,
            label: String::from_str(label),
            library_file_path: None,
            offset: 0,
        };
        let kept = SvcMemRegion {
            virtual_address: begin,
            begin,
            end,
            perms: PERM_READ_EXEC,
            label: region.label.clone(),
            library_file_path: None,
            offset: 0,
        };
        assert(kept == region);
        self.mem_region.push(kept);
        self.cursor = end;
        assert(self@.regions =~= old(self)@.regions.push(region));
        assert forall|i: int| 0 <= i < self@.regions.len() implies region_ok(
            #[trigger] self@.regions[i],
            self.base,
            self.cursor,
        ) by {
            if i < old(self)@.regions.len() {
                assert(region_ok(old(self)@.regions[i], self.base, begin));
            }
        }
        assert forall|i: int, j: int|
            #![trigger self@.regions[i], self@.regions[j]]
            0 <= i < j < self@.regions.len() implies self@.regions[i].end <= self@.regions[j].begin by {
            if j < old(self)@.regions.len() {
                assert(old(self)@.regions[i].end <= old(self)@.regions[j].begin);
            } else {
                assert(region_ok(old(self)@.regions[i], self.base, begin));
            }
        }
        Ok(region)
    }

    /// Whether `[addr, addr + len)` lies in the allocated part of `w`.
    pub open spec fn range_ok(w: WindowView, addr: u64, len: nat) -> bool {
        w.base <= addr && addr + len <= w.cursor
    }

    /// Puts `data` at guest address `addr`. Refused, with nothing changed,
    /// unless the whole range lies in the allocated part of the window.
    pub fn write_bytes(&mut self, addr: u64, data: &[u8]) -> (r: Result<(), SvcError>)
        requires
            old(self)@.wf(),
        ensures
            final(self)@.wf(),
            r is Ok <==> Self::range_ok(old(self)@, addr, data@.len()),
            r matches Err(e) ==> e == SvcError::OutOfWindow && final(self)@ == old(self)@,
            r is Ok ==> {
                &&& final(self)@.base == old(self)@.base
                &&& final(self)@.size == old(self)@.size
                &&& final(self)@.record_labels == old(self)@.record_labels
                &&& final(self)@.cursor == old(self)@.cursor
                &&& final(self)@.regions == old(self)@.regions
                &&& final(self)@.image == old(self)@.image.subrange(0, addr - old(self)@.base)
                    + data@ + old(self)@.image.subrange(
                    addr - old(self)@.base + data@.len(),
                    old(self)@.image.len() as int,
                )
            },
    {
        if addr < self.base || addr > self.cursor || data.len() as u64 > self.cursor - addr {
            return Err(SvcError::OutOfWindow);
        }
        let off: usize = (addr - self.base) as usize;
        let ilen: usize = self.image.len();
        let mut i: usize = 0;
        while i < data.len()
            invariant
                0 <= i <= data@.len(),
                off + data@.len() <= self.image@.len(),
                self.image@.len() == ilen,
                self.image@.len() == old(self).image@.len(),
                self.base == old(self).base,
                self.size == old(self).size,
                self.record_labels == old(self).record_labels,
                self.cursor == old(self).cursor,
                self.mem_region@ == old(self).mem_region@,
                self.image@ == old(self).image@.subrange(0, off as int) + data@.subrange(0, i as int)
                    + old(self).image@.subrange(off + i, old(self).image@.len() as int),
            decreases data@.len() - i,
        {
            self.image.set(off + i, data[i]);
            i = i + 1;
            assert(self.image@ =~= old(self).image@.subrange(0, off as int) + data@.subrange(0, i as int)
                + old(self).image@.subrange(off + i, old(self).image@.len() as int));
        }
        assert(data@.subrange(0, data@.len() as int) =~= data@);
        Ok(())
    }

    /// The `len` bytes at guest address `addr`, when that range lies in the
    /// allocated part of the window.
    pub fn read_bytes(&self, addr: u64, len: usize) -> (r: Result<Vec<u8>, SvcError>)
        requires
            self@.wf(),
        ensures
            r is Ok <==> Self::range_ok(self@, addr, len as nat),
            r matches Err(e) ==> e == SvcError::OutOfWindow,
            r matches Ok(v) ==> v@ == self@.image.subrange(
                addr - self@.base,
                addr - self@.base + len,
            ),
    {
        if addr < self.base || addr > self.cursor || len as u64 > self.cursor - addr {
            return Err(SvcError::OutOfWindow);
        }
        let off: usize = (addr - self.base) as usize;
        let ilen: usize = self.image.len();
        let mut out: Vec<u8> = Vec::new();
        let mut i: usize = 0;
        while i < len
            invariant
                0 <= i <= len,
                off + len <= self.image@.len(),
                self.image@.len() == ilen,
                out@ == self@.image.subrange(off as int, off + i),
            decreases len - i,
        {
            out.push(self.image[off + i]);
            i = i + 1;
            assert(out@ =~= self@.image.subrange(off as int, off + i));
        }
        Ok(out)
    }
}

/// Regions handed out by any run of successful allocations are pairwise disjoint and in strictly increasing
/// order of address, and each spans exactly its request rounded up to the
/// allocation unit. A refused allocation changes nothing and hands out no
/// region, so it may be left out of the run.
pub proof fn lemma_allocations_disjoint(
    states: Seq<WindowView>,
    sizes: Seq<nat>,
    labels: Seq<Seq<char>>,
    regions: Seq<SvcMemRegion>,
)
    requires
        states.len() == regions.len() + 1,
        sizes.len() == regions.len(),
        labels.len() == regions.len(),
        forall|k: int|
            0 <= k < regions.len() ==> allocate_step(
                #[trigger] states[k],
                sizes[k],
                labels[k],
                regions[k],
                states[k + 1],
            ),
    ensures
        forall|k: int|
            0 <= k < regions.len() ==> (#[trigger] regions[k]).end - regions[k].begin == align_up(
                sizes[k],
            ),
        forall|i: int, j: int|
            #![trigger regions[i], regions[j]]
            0 <= i < j < regions.len() ==> regions[i].begin < regions[i].end <= regions[j].begin
                < regions[j].end,
{
    assert forall|k: int| 0 <= k < regions.len() implies (#[trigger] regions[k]).end
        - regions[k].begin == align_up(sizes[k]) by {
        assert(allocate_step(states[k], sizes[k], labels[k], regions[k], states[k + 1]));
    }
    assert forall|i: int, j: int|
        #![trigger regions[i], regions[j]]
        0 <= i < j < regions.len() implies regions[i].begin < regions[i].end <= regions[j].begin
        < regions[j].end by {
        lemma_allocation_run_cursor(states, sizes, labels, regions, j);
        assert(allocate_step(states[j], sizes[j], labels[j], regions[j], states[j + 1]));
    }
}

/// Along a run of successful allocations, every region handed out before
/// step `k` ends at or below the cursor of state `k`, and every region is
/// non-empty.
proof fn lemma_allocation_run_cursor(
    states: Seq<WindowView>,
    sizes: Seq<nat>,
    labels: Seq<Seq<char>>,
    regions: Seq<SvcMemRegion>,
    k: int,
)
    requires
        states.len() == regions.len() + 1,
        sizes.len() == regions.len(),
        labels.len() == regions.len(),
        0 <= k <= regions.len(),
        forall|m: int|
            0 <= m < regions.len() ==> allocate_step(
                #[trigger] states[m],
                sizes[m],
                labels[m],
                regions[m],
                states[m + 1],
            ),
    ensures
        forall|i: int| 0 <= i < k ==> (#[trigger] regions[i]).end <= states[k].cursor,
        forall|i: int| 0 <= i < regions.len() ==> (#[trigger] regions[i]).begin < regions[i].end,
    decreases k,
{
    assert forall|i: int| 0 <= i < regions.len() implies (#[trigger] regions[i]).begin
        < regions[i].end by {
        assert(allocate_step(states[i], sizes[i], labels[i], regions[i], states[i + 1]));
    }
    if k > 0 {
        lemma_allocation_run_cursor(states, sizes, labels, regions, k - 1);
        assert(allocate_step(
            states[k - 1],
            sizes[k - 1],
            labels[k - 1],
            regions[k - 1],
            states[k],
        ));
    }
}

} // verus!
