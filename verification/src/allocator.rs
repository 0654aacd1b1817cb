//! Scratch-buffer allocators: a heap-pooled strategy that reuses released
//! regions, and a fixed-capacity strategy that bump-allocates sub-regions of
//! one pre-sized region and never grows.

use vstd::prelude::*;

use crate::buf::{Buf, BufString};
use crate::error::{Error, ErrorKind};

verus! {

/// A growable region handed out by the [`System`] allocator; writes always
/// succeed.
pub struct SystemBuf {
    data: Vec<u8>,
}

impl Buf for SystemBuf {
    closed spec fn data(&self) -> Seq<u8> {
        self.data@
    }

    fn write(&mut self, bytes: &[u8]) -> (r: bool)
        ensures
            r,
    {
        self.data.extend_from_slice(bytes);
        true
    }

    fn len(&self) -> (r: usize) {
        self.data.len()
    }

    fn byte_at(&self, i: usize) -> (r: u8) {
        self.data[i]
    }
}

impl SystemBuf {
    /// The bytes written so far, as a slice.
    pub fn as_slice(&self) -> (r: &[u8])
        ensures
            r@ == self.data(),
    {
        self.data.as_slice()
    }
}

/// The heap-pooled allocator: released regions go onto a free list, cleared,
/// and are reused by later requests, so repeated acquire-release cycles
/// never create more regions than the peak number concurrently live.
pub struct System {
    pool: Vec<Vec<u8>>,
    created: usize,
    live: usize,
    peak: usize,
}

impl System {
    /// How many regions sit on the free list.
    pub closed spec fn spec_pooled(&self) -> nat {
        self.pool@.len()
    }

    /// How many regions were ever created.
    pub closed spec fn spec_created(&self) -> nat {
        self.created as nat
    }

    /// How many regions are currently lent out.
    pub closed spec fn spec_live(&self) -> nat {
        self.live as nat
    }

    /// The peak number of regions concurrently lent out.
    pub closed spec fn spec_peak(&self) -> nat {
        self.peak as nat
    }

    /// Every created region is either lent out or pooled, pooled regions are
    /// cleared, and no more regions were ever created than were at some
    /// point concurrently live.
    pub closed spec fn wf(&self) -> bool {
        &&& self.created == self.live + self.pool@.len()
        &&& self.created <= self.peak
        &&& self.live <= self.peak
        &&& forall|i: int| 0 <= i < self.pool@.len() ==> self.pool@[i]@.len() == 0
    }

    /// A fresh allocator with an empty free list.
    pub fn new() -> (r: System)
        ensures
            r.wf(),
            r.spec_created() == 0,
            r.spec_live() == 0,
            r.spec_peak() == 0,
            r.spec_pooled() == 0,
    {
        System { pool: Vec::new(), created: 0, live: 0, peak: 0 }
    }

    /// Acquires a cleared region: the free list's most recently released
    /// region if one is pooled, otherwise a newly created one.
    pub fn acquire(&mut self) -> (r: Option<SystemBuf>)
        requires
            old(self).wf(),
            old(self).spec_live() < usize::MAX,
        ensures
            final(self).wf(),
            r matches Some(buf) && buf.data() == Seq::<u8>::empty(),
            final(self).spec_live() == old(self).spec_live() + 1,
            final(self).spec_created() == if old(self).spec_pooled() > 0 {
                old(self).spec_created()
            } else {
                (old(self).spec_created() + 1) as nat
            },
            final(self).spec_pooled() == if old(self).spec_pooled() > 0 {
                (old(self).spec_pooled() - 1) as nat
            } else {
                old(self).spec_pooled()
            },
            final(self).spec_peak() == if old(self).spec_live() + 1 > old(self).spec_peak() {
                old(self).spec_live() + 1
            } else {
                old(self).spec_peak()
            },
    {
        self.live = self.live + 1;
        if self.live > self.peak {
            self.peak = self.live;
        }
        match self.pool.pop() {
            Some(region) => Some(SystemBuf { data: region }),
            None => {
                self.created = self.created + 1;
                Some(SystemBuf { data: Vec::new() })
            },
        }
    }

    /// Returns a region to the free list, cleared, for reuse by the next
    /// request.
    pub fn release(&mut self, buf: SystemBuf)
        requires
            old(self).wf(),
            old(self).spec_live() > 0,
            old(self).spec_pooled() < usize::MAX,
        ensures
            final(self).wf(),
            final(self).spec_live() == old(self).spec_live() - 1,
            final(self).spec_created() == old(self).spec_created(),
            final(self).spec_peak() == old(self).spec_peak(),
            final(self).spec_pooled() == old(self).spec_pooled() + 1,
    {
        let mut region = buf.data;
        region.clear();
        self.pool.push(region);
        self.live = self.live - 1;
    }

    /// How many regions this allocator has ever created.
    pub fn region_count(&self) -> (r: usize)
        ensures
            r == self.spec_created(),
    {
        self.created
    }

    /// The peak number of regions concurrently lent out.
    pub fn peak_count(&self) -> (r: usize)
        ensures
            r == self.spec_peak(),
    {
        self.peak
    }
}

impl Default for System {
    /// The same fresh allocator [`System::new`] yields.
    fn default() -> (r: System)
        ensures
            r.wf(),
            r.spec_created() == 0,
            r.spec_live() == 0,
            r.spec_peak() == 0,
            r.spec_pooled() == 0,
    {
        System::new()
    }
}

/// In a well-formed pooled allocator the number of distinct backing regions
/// never exceeds the peak number of concurrently live handles, however many
/// acquire-release cycles have run: acquiring creates a region only when the
/// free list is empty, and releasing always pools the region for reuse.
pub proof fn lemma_pooled_regions_bounded(s: System)
    requires
        s.wf(),
    ensures
        s.spec_created() <= s.spec_peak(),
{
}

/// What one write does to a fixed-capacity buffer holding `data` out of
/// `cap` bytes: the bytes are appended when they fit, and nothing changes
/// when they do not.
pub open spec fn fixed_write(data: Seq<u8>, cap: nat, bytes: Seq<u8>) -> (Seq<u8>, bool) {
    if data.len() + bytes.len() <= cap {
        (data + bytes, true)
    } else {
        (data, false)
    }
}

/// A bounded sub-region handed out by the [`Fixed`] allocator; a write that
/// would pass the capacity fails and changes nothing.
#[derive(Debug)]
pub struct FixedBuf {
    data: Vec<u8>,
    cap: usize,
}

impl FixedBuf {
    /// This buffer's capacity in bytes.
    pub closed spec fn spec_cap(&self) -> nat {
        self.cap as nat
    }

    /// The capacity, for callers.
    pub fn capacity(&self) -> (r: usize)
        ensures
            r == self.spec_cap(),
    {
        self.cap
    }

    /// Appends the given bytes, or fails once the remaining capacity is
    /// exhausted, leaving previously written bytes untouched.
    pub fn try_write(&mut self, bytes: &[u8]) -> (r: bool)
        ensures
            (final(self).data(), r) == fixed_write(
                old(self).data(),
                old(self).spec_cap(),
                bytes@,
            ),
            final(self).spec_cap() == old(self).spec_cap(),
    {
        if self.data.len() <= self.cap && bytes.len() <= self.cap - self.data.len() {
            self.data.extend_from_slice(bytes);
            true
        } else {
            false
        }
    }

    /// The bytes written so far, as a slice.
    pub fn as_slice(&self) -> (r: &[u8])
        ensures
            r@ == self.data(),
    {
        self.data.as_slice()
    }
}

impl Buf for FixedBuf {
    closed spec fn data(&self) -> Seq<u8> {
        self.data@
    }

    fn write(&mut self, bytes: &[u8]) -> (r: bool) {
        self.try_write(bytes)
    }

    fn len(&self) -> (r: usize) {
        self.data.len()
    }

    fn byte_at(&self, i: usize) -> (r: u8) {
        self.data[i]
    }
}

/// The fixed-capacity allocator: one pre-sized extent, bump-allocated into
/// disjoint sub-regions, for use where dynamic allocation is unavailable.
/// It never grows.
pub struct Fixed {
    capacity: usize,
    used: usize,
}

impl Fixed {
    /// The total extent in bytes.
    pub closed spec fn spec_capacity(&self) -> nat {
        self.capacity as nat
    }

    /// How many bytes are currently reserved.
    pub closed spec fn spec_used(&self) -> nat {
        self.used as nat
    }

    /// The reservation never passes the extent.
    pub closed spec fn wf(&self) -> bool {
        self.used <= self.capacity
    }

    /// A fresh allocator over an extent of the given size.
    pub fn new(capacity: usize) -> (r: Fixed)
        ensures
            r.wf(),
            r.spec_capacity() == capacity,
            r.spec_used() == 0,
    {
        Fixed { capacity, used: 0 }
    }

    /// Reserves the remaining tail of the extent as one sub-region, or
    /// reports exhaustion once nothing remains.
    pub fn acquire(&mut self) -> (r: Option<FixedBuf>)
        requires
            old(self).wf(),
        ensures
            final(self).wf(),
            final(self).spec_capacity() == old(self).spec_capacity(),
            old(self).spec_used() < old(self).spec_capacity() ==> (r matches Some(buf)
                && buf.data() == Seq::<u8>::empty()
                && buf.spec_cap() == old(self).spec_capacity() - old(self).spec_used()
                && final(self).spec_used() == old(self).spec_capacity()),
            old(self).spec_used() >= old(self).spec_capacity() ==> (r is None
                && final(self).spec_used() == old(self).spec_used()),
    {
        if self.used < self.capacity {
            let cap = self.capacity - self.used;
            self.used = self.capacity;
            Some(FixedBuf { data: Vec::new(), cap })
        } else {
            None
        }
    }

    /// Takes a sub-region back: the written bytes stay reserved, the unused
    /// tail becomes available again.
    pub fn release(&mut self, buf: FixedBuf)
        requires
            old(self).wf(),
            buf.data().len() <= buf.spec_cap() <= old(self).spec_used(),
        ensures
            final(self).wf(),
            final(self).spec_capacity() == old(self).spec_capacity(),
            final(self).spec_used() == old(self).spec_used() - buf.spec_cap()
                + buf.data().len(),
    {
        let written = buf.data.len();
        self.used = self.used - buf.cap + written;
    }
}

/// Writing exactly the capacity of a fresh fixed buffer succeeds, and any
/// further non-empty write fails without corrupting the written bytes.
pub proof fn lemma_fixed_capacity(cap: nat, fill: Seq<u8>, extra: Seq<u8>)
    requires
        fill.len() == cap,
        extra.len() > 0,
    ensures
        ({
            let (d1, ok1) = fixed_write(Seq::empty(), cap, fill);
            &&& ok1
            &&& d1 == fill
            &&& !fixed_write(d1, cap, extra).1
            &&& fixed_write(d1, cap, extra).0 == fill
        }),
{
    assert(Seq::<u8>::empty() + fill =~= fill);
}

/// Formats the given text into a scratch string drawn from the pooled
/// allocator. The pooled allocator always has a region to lend and its
/// regions always have room, so this never fails.
pub fn collect_string(pool: &mut System, value: &str) -> (r: Result<
    BufString<SystemBuf>,
    Error,
>)
    requires
        old(pool).wf(),
        old(pool).spec_live() < usize::MAX,
    ensures
        final(pool).wf(),
        final(pool).spec_live() == old(pool).spec_live() + 1,
        r matches Ok(s) && s.text() == value@ && s.wf(),
{
    let buf = match pool.acquire() {
        Some(b) => b,
        None => {
            proof {
                assert(false);
            }
            SystemBuf { data: Vec::new() }
        },
    };
    let mut out = BufString::new(buf);
    out.push_str(value);
    Ok(out)
}

} // verus!
