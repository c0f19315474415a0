use vstd::prelude::*;
use tinywasm_types::{Addr, ExternAddr, FuncAddr, ModuleInstanceAddr, TableAddr, TableType, ValType};
use crate::error::{Error, Trap};
use crate::memory::overwrite;
use crate::types::{unsigned, unsigned_offset};

verus! {

/// The most slots a table can have.
pub const MAX_TABLE_SIZE: u32 = 10000000;

/// One slot of a table.
#[derive(Debug, Clone, Copy, PartialEq, Eq)]
pub enum TableElement {
    Uninitialized,
    Initialized(TableAddr),
}

impl TableElement {
    /// The address held by the slot, if any.
    pub fn addr(&self) -> (r: Option<Addr>)
        ensures
            r == (match *self {
                TableElement::Uninitialized => None,
                TableElement::Initialized(a) => Some(a),
            }),
    {
        match self {
            TableElement::Uninitialized => None,
            TableElement::Initialized(a) => Some(*a),
        }
    }
}

impl From<Option<Addr>> for TableElement {
    fn from(addr: Option<Addr>) -> (r: TableElement) {
        match addr {
            None => TableElement::Uninitialized,
            Some(a) => TableElement::Initialized(a),
        }
    }
}

impl vstd::std_specs::convert::FromSpecImpl<Option<Addr>> for TableElement {
    open spec fn obeys_from_spec() -> bool {
        true
    }

    open spec fn from_spec(addr: Option<Addr>) -> TableElement {
        match addr {
            None => TableElement::Uninitialized,
            Some(a) => TableElement::Initialized(a),
        }
    }
}

/// A reference value read out of a table.
#[derive(Debug, Clone, Copy, PartialEq)]
pub enum WasmRef {
    RefFunc(FuncAddr),
    RefExtern(ExternAddr),
    RefNull(ValType),
}

/// The number of slots a table of type `kind` may reach: its declared
/// maximum (by default `MAX_TABLE_SIZE`), and never more than `MAX_TABLE_SIZE`.
pub open spec fn table_limit(kind: TableType) -> nat {
    match kind.size_max {
        Some(m) => if m < MAX_TABLE_SIZE { m as nat } else { MAX_TABLE_SIZE as nat },
        None => MAX_TABLE_SIZE as nat,
    }
}

/// `n` uninitialised slots.
pub open spec fn uninit(n: nat) -> Seq<TableElement> {
    Seq::new(n, |i: int| TableElement::Uninitialized)
}

/// `s` extended with uninitialised slots to length `n`, if it is shorter.
pub open spec fn fit(s: Seq<TableElement>, n: nat) -> Seq<TableElement> {
    if n <= s.len() {
        s
    } else {
        s + uninit((n - s.len()) as nat)
    }
}

/// The reference value of slot `e` in a table whose element type is `t`.
pub open spec fn ref_of(t: ValType, e: TableElement) -> WasmRef {
    match (t, e) {
        (ValType::RefFunc, TableElement::Initialized(a)) => WasmRef::RefFunc(a),
        (ValType::RefExtern, TableElement::Initialized(a)) => WasmRef::RefExtern(a),
        _ => WasmRef::RefNull(t),
    }
}

/// Slot `e` of an initialiser, with a function index turned into a store
/// address through `func_addrs` in a `funcref` table; `None` where the index
/// has no address.
pub open spec fn resolve(t: ValType, func_addrs: Seq<u32>, e: TableElement) -> Option<TableElement> {
    match e {
        TableElement::Uninitialized => Some(e),
        TableElement::Initialized(a) => if t != ValType::RefFunc {
            Some(e)
        } else if a < func_addrs.len() {
            Some(TableElement::Initialized(func_addrs[a as int]))
        } else {
            None
        },
    }
}

/// Every slot of `init` resolves.
pub open spec fn resolves(t: ValType, func_addrs: Seq<u32>, init: Seq<TableElement>) -> bool {
    forall|i: int| 0 <= i < init.len() ==> (#[trigger] resolve(t, func_addrs, init[i])) is Some
}

/// The slots of `init`, resolved.
pub open spec fn resolved(t: ValType, func_addrs: Seq<u32>, init: Seq<TableElement>) -> Seq<TableElement> {
    Seq::new(init.len(), |i: int| resolve(t, func_addrs, init[i])->Some_0)
}

/// After a successful `set(a, v)` the table holds `Initialized(v)` at `a`,
/// so `get(a)` returns it, and has at least `a + 1` slots.
pub proof fn lemma_set_then_get(t: TableInstance, a: TableAddr, v: Addr)
    requires
        t.wf(),
        a < t.elems().len() || a < table_limit(t.table_type()),
    ensures
        ({
            let after = fit(t.elems(), (a + 1) as nat).update(a as int, TableElement::Initialized(v));
            &&& after.len() >= a + 1
            &&& after[a as int] == TableElement::Initialized(v)
        }),
{
}

/// A table: a growable vector of reference slots.
#[derive(Debug)]
pub struct TableInstance {
    elements: Vec<TableElement>,
    kind: TableType,
    owner: ModuleInstanceAddr,
}

impl TableInstance {
    /// The slots of the table.
    pub closed spec fn elems(&self) -> Seq<TableElement> {
        self.elements@
    }

    /// The type the table was created with.
    pub closed spec fn table_type(&self) -> TableType {
        self.kind
    }

    /// The module instance that owns the table.
    pub closed spec fn owner_spec(&self) -> ModuleInstanceAddr {
        self.owner
    }

    /// The table is within the size cap of all tables.
    pub open spec fn wf(&self) -> bool {
        self.elems().len() <= MAX_TABLE_SIZE
    }

    /// A table of `kind.size_initial` uninitialised slots.
    pub fn new(kind: TableType, owner: ModuleInstanceAddr) -> (r: TableInstance)
        requires
            kind.size_initial <= MAX_TABLE_SIZE,
        ensures
            r.wf(),
            r.elems() == uninit(kind.size_initial as nat),
            r.table_type() == kind,
            r.owner_spec() == owner,
    {
        let n = kind.size_initial as usize;
        let mut elements: Vec<TableElement> = Vec::with_capacity(n);
        while elements.len() < n
            invariant
                elements@.len() <= n,
                elements@ == uninit(elements@.len()),
            decreases n - elements@.len(),
        {
            elements.push(TableElement::Uninitialized);
            assert(elements@ =~= uninit(elements@.len()));
        }
        TableInstance { elements, kind, owner }
    }

    /// The reference value at `addr`.
    pub fn get_wasm_val(&self, addr: TableAddr) -> (r: Result<WasmRef, Error>)
        ensures
            addr >= self.elems().len() ==> r == Err::<WasmRef, Error>(
                Error::Trap(Trap::UndefinedElement { index: addr as usize }),
            ),
            addr < self.elems().len() ==> {
                let t = self.table_type().element_type;
                &&& (t is RefFunc || t is RefExtern) ==> r == Ok::<WasmRef, Error>(
                    ref_of(t, self.elems()[addr as int]),
                )
                &&& !(t is RefFunc || t is RefExtern) ==> {
                    &&& r is Err
                    &&& r->Err_0 is UnsupportedFeature
                    &&& r->Err_0.msg() == "non-ref table"@
                }
            },
    {
        let e = self.get(addr)?;
        match self.kind.element_type {
            ValType::RefFunc => Ok(
                match e {
                    TableElement::Initialized(a) => WasmRef::RefFunc(a),
                    TableElement::Uninitialized => WasmRef::RefNull(ValType::RefFunc),
                },
            ),
            ValType::RefExtern => Ok(
                match e {
                    TableElement::Initialized(a) => WasmRef::RefExtern(a),
                    TableElement::Uninitialized => WasmRef::RefNull(ValType::RefExtern),
                },
            ),
            _ => {
                proof {
                    reveal_strlit("non-ref table");
                }
                Err(Error::UnsupportedFeature("non-ref table".to_string()))
            },
        }
    }

    /// The slot at `addr`.
    pub fn get(&self, addr: TableAddr) -> (r: Result<TableElement, Error>)
        ensures
            addr < self.elems().len() ==> r == Ok::<TableElement, Error>(self.elems()[addr as int]),
            addr >= self.elems().len() ==> r == Err::<TableElement, Error>(
                Error::Trap(Trap::UndefinedElement { index: addr as usize }),
            ),
    {
        let i = addr as usize;
        if i < self.elements.len() {
            Ok(self.elements[i])
        } else {
            Err(Error::Trap(Trap::UndefinedElement { index: i }))
        }
    }

    /// Stores `value` at `table_idx`, growing the table to fit; fails where
    /// the index is past the table's limit.
    pub fn set(&mut self, table_idx: TableAddr, value: Addr) -> (r: Result<(), Error>)
        requires
            old(self).wf(),
        ensures
            final(self).wf(),
            final(self).table_type() == old(self).table_type(),
            final(self).owner_spec() == old(self).owner_spec(),
            ({
                let len = old(self).elems().len();
                &&& (table_idx < len || table_idx < table_limit(old(self).table_type())) ==> {
                    &&& r is Ok
                    &&& final(self).elems() == fit(old(self).elems(), (table_idx + 1) as nat).update(
                        table_idx as int,
                        TableElement::Initialized(value),
                    )
                }
                &&& !(table_idx < len || table_idx < table_limit(old(self).table_type())) ==> {
                    &&& r == Err::<(), Error>(Error::Trap(Trap::TableOutOfBounds {
                        offset: table_idx as usize,
                        len: 1,
                        max: len as usize,
                    }))
                    &&& final(self).elems() == old(self).elems()
                }
            }),
    {
        let i = table_idx as usize;
        if i >= self.elements.len() && i >= MAX_TABLE_SIZE as usize {
            return Err(Error::Trap(Trap::TableOutOfBounds { offset: i, len: 1, max: self.elements.len() }));
        }
        match self.grow_to_fit(i + 1) {
            Ok(()) => {},
            Err(_) => {
                return Err(Error::Trap(Trap::TableOutOfBounds { offset: i, len: 1, max: self.elements.len() }));
            },
        }
        self.elements[i] = TableElement::Initialized(value);
        Ok(())
    }

    /// Extends the table with uninitialised slots to `new_size` slots, if it
    /// is shorter; fails where that passes the table's limit.
    pub fn grow_to_fit(&mut self, new_size: usize) -> (r: Result<(), Error>)
        requires
            old(self).wf(),
        ensures
            final(self).wf(),
            final(self).table_type() == old(self).table_type(),
            final(self).owner_spec() == old(self).owner_spec(),
            (new_size <= old(self).elems().len() || new_size <= table_limit(old(self).table_type()))
                ==> r is Ok && final(self).elems() == fit(old(self).elems(), new_size as nat),
            !(new_size <= old(self).elems().len() || new_size <= table_limit(old(self).table_type()))
                ==> {
                &&& r == Err::<(), Error>(Error::Trap(Trap::TableOutOfBounds {
                    offset: new_size,
                    len: 1,
                    max: old(self).elems().len() as usize,
                }))
                &&& final(self).elems() == old(self).elems()
            },
    {
        let len = self.elements.len();
        if new_size > len {
            let limit: usize = match self.kind.size_max {
                Some(m) => if m < MAX_TABLE_SIZE { m as usize } else { MAX_TABLE_SIZE as usize },
                None => MAX_TABLE_SIZE as usize,
            };
            if new_size > limit {
                return Err(Error::Trap(Trap::TableOutOfBounds { offset: new_size, len: 1, max: len }));
            }
            while self.elements.len() < new_size
                invariant
                    len <= self.elements@.len() <= new_size,
                    new_size <= MAX_TABLE_SIZE,
                    self.elements@ == old(self).elements@ + uninit((self.elements@.len() - len) as nat),
                    self.kind == old(self).kind,
                    self.owner == old(self).owner,
                decreases new_size - self.elements@.len(),
            {
                self.elements.push(TableElement::Uninitialized);
                assert(self.elements@ =~= old(self).elements@ + uninit((self.elements@.len() - len) as nat));
            }
        }
        Ok(())
    }

    /// The number of slots.
    pub fn size(&self) -> (r: i32)
        requires
            self.wf(),
        ensures
            r == self.elems().len(),
    {
        self.elements.len() as i32
    }

    /// Slot `e`, with its function index turned into a store address in a
    /// `funcref` table.
    fn resolve_func_ref(&self, func_addrs: &[u32], e: TableElement) -> (r: Option<TableElement>)
        ensures
            r == resolve(self.table_type().element_type, func_addrs@, e),
    {
        match e {
            TableElement::Uninitialized => Some(e),
            TableElement::Initialized(a) => match self.kind.element_type {
                ValType::RefFunc => {
                    if (a as usize) < func_addrs.len() {
                        Some(TableElement::Initialized(func_addrs[a as usize]))
                    } else {
                        None
                    }
                },
                _ => Some(e),
            },
        }
    }

    /// Copies `init` into the slots from `offset` on (read as unsigned); traps
    /// where that passes the end of the table.
    pub fn init_raw(&mut self, offset: i32, init: &[TableElement]) -> (r: Result<(), Error>)
        requires
            old(self).wf(),
        ensures
            final(self).wf(),
            final(self).table_type() == old(self).table_type(),
            final(self).owner_spec() == old(self).owner_spec(),
            unsigned(offset) + init@.len() <= old(self).elems().len() ==> {
                &&& r is Ok
                &&& final(self).elems() == overwrite(old(self).elems(), unsigned(offset) as int, init@)
            },
            unsigned(offset) + init@.len() > old(self).elems().len() ==> {
                &&& r == Err::<(), Error>(Error::Trap(Trap::TableOutOfBounds {
                    offset: unsigned(offset) as usize,
                    len: init@.len() as usize,
                    max: old(self).elems().len() as usize,
                }))
                &&& final(self).elems() == old(self).elems()
            },
    {
        let start = unsigned_offset(offset);
        let max = self.elements.len();
        if init.len() > max || start > max - init.len() {
            return Err(Error::Trap(Trap::TableOutOfBounds { offset: start, len: init.len(), max }));
        }
        let mut i: usize = 0;
        while i < init.len()
            invariant
                i <= init@.len(),
                start + init@.len() <= max,
                start == unsigned(offset),
                max == old(self).elements@.len(),
                self.elements@.len() == max,
                self.kind == old(self).kind,
                self.owner == old(self).owner,
                forall|j: int|
                    0 <= j < max ==> #[trigger] self.elements@[j] == (if start <= j < start + i {
                        init@[j - start]
                    } else {
                        old(self).elements@[j]
                    }),
            decreases init@.len() - i,
        {
            self.elements[start + i] = init[i];
            i = i + 1;
        }
        assert(self.elements@ =~= overwrite(old(self).elements@, start as int, init@));
        Ok(())
    }

    /// Copies `init` into the slots from `offset` on, turning function
    /// indices into store addresses through `func_addrs` in a `funcref` table.
    pub fn init(&mut self, func_addrs: &[u32], offset: i32, init: &[TableElement]) -> (r: Result<(), Error>)
        requires
            old(self).wf(),
        ensures
            final(self).wf(),
            final(self).table_type() == old(self).table_type(),
            final(self).owner_spec() == old(self).owner_spec(),
            ({
                let t = old(self).table_type().element_type;
                let fits = unsigned(offset) + init@.len() <= old(self).elems().len();
                &&& !resolves(t, func_addrs@, init@) ==> {
                    &&& r is Err && r->Err_0 is Other
                    &&& r->Err_0.msg() == "function not found for table initialisation"@
                    &&& final(self).elems() == old(self).elems()
                }
                &&& resolves(t, func_addrs@, init@) && fits ==> {
                    &&& r is Ok
                    &&& final(self).elems() == overwrite(
                        old(self).elems(),
                        unsigned(offset) as int,
                        resolved(t, func_addrs@, init@),
                    )
                }
                &&& resolves(t, func_addrs@, init@) && !fits ==> {
                    &&& r == Err::<(), Error>(Error::Trap(Trap::TableOutOfBounds {
                        offset: unsigned(offset) as usize,
                        len: init@.len() as usize,
                        max: old(self).elems().len() as usize,
                    }))
                    &&& final(self).elems() == old(self).elems()
                }
            }),
    {
        let ghost t = self.kind.element_type;
        let mut items: Vec<TableElement> = Vec::with_capacity(init.len());
        let mut i: usize = 0;
        while i < init.len()
            invariant
                i <= init@.len(),
                items@.len() == i,
                *self == *old(self),
                old(self).wf(),
                t == self.kind.element_type,
                forall|j: int| 0 <= j < i ==> (#[trigger] resolve(t, func_addrs@, init@[j])) is Some,
                forall|j: int| 0 <= j < i ==> #[trigger] items@[j] == resolve(t, func_addrs@, init@[j])->Some_0,
            decreases init@.len() - i,
        {
            match self.resolve_func_ref(func_addrs, init[i]) {
                Some(e) => items.push(e),
                None => {
                    proof {
                        reveal_strlit("function not found for table initialisation");
                    }
                    return Err(Error::Other("function not found for table initialisation".to_string()));
                },
            }
            i = i + 1;
        }
        assert(items@ =~= resolved(t, func_addrs@, init@));
        self.init_raw(offset, items.as_slice())
    }
}

} // verus!
