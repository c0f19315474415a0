use vstd::prelude::*;
use vstd::slice::slice_subrange;
use tinywasm_types::{MemoryType, ModuleInstanceAddr};
use crate::error::{Error, Trap};

verus! {

/// Bytes in one page of linear memory.
pub const PAGE_SIZE: usize = 65536;

/// The most pages a 32-bit memory can have.
pub const MAX_PAGES: usize = 65536;

/// The number of pages a memory of type `kind` may reach: its declared
/// maximum (by default `MAX_PAGES`), and never more than `MAX_PAGES`.
pub open spec fn page_limit(kind: MemoryType) -> nat {
    match kind.page_count_max {
        Some(m) => if m < MAX_PAGES { m as nat } else { MAX_PAGES as nat },
        None => MAX_PAGES as nat,
    }
}

/// `mem` with the items from `at` on replaced by `src`.
pub open spec fn overwrite<A>(mem: Seq<A>, at: int, src: Seq<A>) -> Seq<A> {
    Seq::new(mem.len(), |i: int| if at <= i < at + src.len() { src[i - at] } else { mem[i] })
}

/// `n` zero bytes.
pub open spec fn zeros(n: nat) -> Seq<u8> {
    Seq::new(n, |i: int| 0u8)
}

/// A linear memory: a byte array made of whole pages.
#[derive(Debug)]
pub struct MemoryInstance {
    kind: MemoryType,
    data: Vec<u8>,
    page_count: usize,
    owner: ModuleInstanceAddr,
}

impl MemoryInstance {
    /// The bytes of the memory.
    pub closed spec fn bytes(&self) -> Seq<u8> {
        self.data@
    }

    /// The number of pages.
    pub closed spec fn pages(&self) -> nat {
        self.page_count as nat
    }

    /// The type the memory was created with.
    pub closed spec fn memory_type(&self) -> MemoryType {
        self.kind
    }

    /// The module instance that owns the memory.
    pub closed spec fn owner_spec(&self) -> ModuleInstanceAddr {
        self.owner
    }

    /// The memory is a whole number of pages, within its limit.
    pub open spec fn wf(&self) -> bool {
        &&& self.bytes().len() == self.pages() * PAGE_SIZE
        &&& self.pages() <= page_limit(self.memory_type())
    }

    /// A zeroed memory of `kind.page_count_initial` pages.
    pub fn new(kind: MemoryType, owner: ModuleInstanceAddr) -> (r: MemoryInstance)
        requires
            kind.page_count_initial <= page_limit(kind),
            kind.page_count_initial * PAGE_SIZE <= usize::MAX,
        ensures
            r.wf(),
            r.memory_type() == kind,
            r.owner_spec() == owner,
            r.pages() == kind.page_count_initial,
            r.bytes() == zeros(r.bytes().len()),
    {
        let pages = kind.page_count_initial as usize;
        let len = PAGE_SIZE * pages;
        let mut data: Vec<u8> = Vec::with_capacity(len);
        while data.len() < len
            invariant
                data@.len() <= len,
                data@ == zeros(data@.len()),
            decreases len - data@.len(),
        {
            data.push(0u8);
        }
        assert(data@ == zeros(data@.len()));
        MemoryInstance { kind, data, page_count: pages, owner }
    }

    /// The number of pages the memory may grow to.
    pub fn max_pages(&self) -> (r: usize)
        ensures
            r == page_limit(self.memory_type()),
    {
        match self.kind.page_count_max {
            Some(m) => if m < MAX_PAGES as u64 { m as usize } else { MAX_PAGES },
            None => MAX_PAGES,
        }
    }

    /// Writes `data` at byte offset `addr`. The alignment hint is ignored.
    pub fn store(&mut self, addr: usize, _align: usize, data: &[u8]) -> (r: Result<(), Error>)
        requires
            old(self).wf(),
        ensures
            final(self).wf(),
            final(self).pages() == old(self).pages(),
            final(self).memory_type() == old(self).memory_type(),
            final(self).owner_spec() == old(self).owner_spec(),
            addr + data@.len() <= old(self).bytes().len() ==> {
                &&& r is Ok
                &&& final(self).bytes() == overwrite(old(self).bytes(), addr as int, data@)
            },
            addr + data@.len() > old(self).bytes().len() ==> {
                &&& r == Err::<(), Error>(Error::Trap(Trap::MemoryOutOfBounds {
                    offset: addr,
                    len: data@.len() as usize,
                    max: old(self).bytes().len() as usize,
                }))
                &&& final(self).bytes() == old(self).bytes()
            },
    {
        let max = self.data.len();
        if data.len() > max || addr > max - data.len() {
            return Err(Error::Trap(Trap::MemoryOutOfBounds { offset: addr, len: data.len(), max }));
        }
        let mut i: usize = 0;
        while i < data.len()
            invariant
                i <= data@.len(),
                addr + data@.len() <= max,
                max == old(self).data@.len(),
                self.data@.len() == max,
                self.page_count == old(self).page_count,
                self.kind == old(self).kind,
                self.owner == old(self).owner,
                forall|j: int|
                    0 <= j < max ==> #[trigger] self.data@[j] == (if addr <= j < addr + i {
                        data@[j - addr]
                    } else {
                        old(self).data@[j]
                    }),
            decreases data@.len() - i,
        {
            self.data[addr + i] = data[i];
            i = i + 1;
        }
        assert(self.data@ == overwrite(old(self).data@, addr as int, data@));
        Ok(())
    }

    /// The `len` bytes at byte offset `addr`. The alignment hint is ignored.
    pub fn load(&self, addr: usize, _align: usize, len: usize) -> (r: Result<&[u8], Error>)
        ensures
            addr + len <= self.bytes().len() ==> r is Ok && r->Ok_0@ == self.bytes().subrange(
                addr as int,
                addr + len,
            ),
            addr + len > self.bytes().len() ==> r == Err::<&[u8], Error>(
                Error::Trap(Trap::MemoryOutOfBounds { offset: addr, len, max: self.bytes().len() as usize }),
            ),
    {
        let max = self.data.len();
        if len > max || addr > max - len {
            return Err(Error::Trap(Trap::MemoryOutOfBounds { offset: addr, len, max }));
        }
        Ok(slice_subrange(self.data.as_slice(), addr, addr + len))
    }

    /// The number of pages.
    pub fn size(&self) -> (r: i32)
        requires
            self.wf(),
        ensures
            r == self.pages(),
    {
        self.page_count as i32
    }

    /// Grows the memory by `delta` zeroed pages and returns the previous page
    /// count; `None`, with nothing changed, where `delta` is negative or the
    /// result would pass the memory's page limit or the address space.
    pub fn grow(&mut self, delta: i32) -> (r: Option<i32>)
        requires
            old(self).wf(),
        ensures
            final(self).wf(),
            final(self).memory_type() == old(self).memory_type(),
            final(self).owner_spec() == old(self).owner_spec(),
            r is Some <==> {
                &&& delta >= 0
                &&& old(self).pages() + delta <= page_limit(old(self).memory_type())
                &&& (old(self).pages() + delta) * PAGE_SIZE <= usize::MAX
            },
            r is Some ==> {
                &&& r->Some_0 == old(self).pages()
                &&& final(self).pages() == old(self).pages() + delta
                &&& final(self).bytes() == old(self).bytes() + zeros((delta * PAGE_SIZE) as nat)
            },
            r is None ==> {
                &&& final(self).pages() == old(self).pages()
                &&& final(self).bytes() == old(self).bytes()
            },
    {
        if delta < 0 {
            return None;
        }
        let current = self.page_count;
        let limit = self.max_pages();
        let d = delta as usize;
        if d > limit - current {
            return None;
        }
        let new_pages = current + d;
        let new_size = match new_pages.checked_mul(PAGE_SIZE) {
            Some(s) => s,
            None => {
                return None;
            },
        };
        let old_len = self.data.len();
        proof {
            assert(new_size - old_len == d * PAGE_SIZE) by (nonlinear_arith)
                requires
                    new_size == (current + d) * PAGE_SIZE,
                    old_len == current * PAGE_SIZE,
            ;
        }
        while self.data.len() < new_size
            invariant
                old_len <= self.data@.len() <= new_size,
                self.data@.subrange(0, old_len as int) == old(self).data@,
                forall|j: int| old_len <= j < self.data@.len() ==> #[trigger] self.data@[j] == 0u8,
                self.kind == old(self).kind,
                self.owner == old(self).owner,
                self.page_count == old(self).page_count,
            decreases new_size - self.data@.len(),
        {
            self.data.push(0u8);
            assert(self.data@.subrange(0, old_len as int) =~= old(self).data@);
        }
        self.page_count = new_pages;
        assert(self.data@ =~= old(self).data@ + zeros((delta * PAGE_SIZE) as nat));
        Some(current as i32)
    }
}

} // verus!
