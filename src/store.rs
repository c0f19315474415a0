use vstd::prelude::*;
use tinywasm_types::{
    Addr, DataAddr, ElemAddr, FuncAddr, GlobalAddr, GlobalType, MemAddr, MemoryArch, MemoryType,
    ModuleInstanceAddr, TableAddr, TableType, TypeAddr, WasmFunction,
};
use crate::error::{Error, Trap};
use crate::instantiation::{
    all_i32_through, allocatable, const_value, consecutive, data_run, elem_item_addrs, elem_run, fresh_memory, fresh_table,
    global_run, i32_error, i32_value, lemma_data_run_stops, lemma_elem_run_stops, lemma_global_run_stops, make_init_slots,
    mem_bytes, table_elem_types, table_slots, wasm_functions,
};
use crate::memory::MemoryInstance;
use crate::table::{TableInstance, MAX_TABLE_SIZE};
use crate::types::{
    unsigned_offset, ConstInstruction, Data, DataKind, Element, ElementKind, Global, RawWasmValue, REF_NULL_BITS,
};

verus! {

/// The code of a function: a decoded Wasm body, or the index of a callable
/// that the embedder provides.
#[derive(Debug)]
pub enum Function {
    Wasm(WasmFunction),
    Host(u32),
}

/// A function instance: its code, its type index and its owning module.
#[derive(Debug)]
pub struct FunctionInstance {
    pub func: Function,
    pub type_idx: TypeAddr,
    pub owner: ModuleInstanceAddr,
}

impl FunctionInstance {
    /// The Wasm body of the function; fails for a host function.
    pub fn assert_wasm(&self) -> (r: Result<&WasmFunction, Error>)
        ensures
            self.func is Wasm ==> r is Ok && *r->Ok_0 == self.func->Wasm_0,
            self.func is Host ==> r is Err && r->Err_0 is Other && r->Err_0.msg() == "expected wasm function"@,
    {
        match &self.func {
            Function::Wasm(w) => Ok(w),
            Function::Host(_) => {
                proof {
                    reveal_strlit("expected wasm function");
                }
                Err(Error::Other("expected wasm function".to_string()))
            },
        }
    }
}

/// A global instance: one typed cell.
#[derive(Debug)]
pub struct GlobalInstance {
    pub value: RawWasmValue,
    pub ty: GlobalType,
    pub owner: ModuleInstanceAddr,
}

impl GlobalInstance {
    pub fn new(ty: GlobalType, value: RawWasmValue, owner: ModuleInstanceAddr) -> (r: GlobalInstance)
        ensures
            r == (GlobalInstance { value, ty, owner }),
    {
        GlobalInstance { value, ty, owner }
    }
}

/// The address spaces of a module instance, as its instantiation recorded them.
#[derive(Debug)]
pub struct ModuleInstance {
    pub id: ModuleInstanceAddr,
    pub func_addrs: Vec<FuncAddr>,
    pub table_addrs: Vec<TableAddr>,
    pub mem_addrs: Vec<MemAddr>,
    pub global_addrs: Vec<GlobalAddr>,
    pub elem_addrs: Vec<ElemAddr>,
    pub data_addrs: Vec<DataAddr>,
}

impl ModuleInstance {
    pub fn id(&self) -> (r: ModuleInstanceAddr)
        ensures
            r == self.id,
    {
        self.id
    }
}

/// An element segment instance; `items` is `None` once the segment is dropped.
#[derive(Debug)]
pub struct ElemInstance {
    pub kind: ElementKind,
    pub items: Option<Vec<u32>>,
    pub owner: ModuleInstanceAddr,
}

impl ElemInstance {
    pub fn new(kind: ElementKind, owner: ModuleInstanceAddr, items: Option<Vec<u32>>) -> (r: ElemInstance)
        ensures
            r.kind == kind,
            r.owner == owner,
            r.items == items,
    {
        ElemInstance { kind, items, owner }
    }

    /// The items, or `None` once dropped.
    pub open spec fn items_view(&self) -> Option<Seq<u32>> {
        match self.items {
            Some(v) => Some(v@),
            None => None,
        }
    }

    /// Drops the segment: its items are gone.
    pub fn drop_items(&mut self)
        ensures
            final(self).items is None,
            final(self).kind == old(self).kind,
            final(self).owner == old(self).owner,
    {
        self.items = None;
    }
}

/// A data segment instance; `data` is `None` once the segment is dropped.
#[derive(Debug)]
pub struct DataInstance {
    pub data: Option<Vec<u8>>,
    pub owner: ModuleInstanceAddr,
}

impl DataInstance {
    pub fn new(data: Vec<u8>, owner: ModuleInstanceAddr) -> (r: DataInstance)
        ensures
            r.data == Some(data),
            r.owner == owner,
    {
        DataInstance { data: Some(data), owner }
    }

    /// The bytes, or `None` once dropped.
    pub open spec fn bytes_view(&self) -> Option<Seq<u8>> {
        match self.data {
            Some(v) => Some(v@),
            None => None,
        }
    }

    /// Drops the segment: its bytes are gone.
    pub fn drop_data(&mut self)
        ensures
            final(self).data is None,
            final(self).owner == old(self).owner,
    {
        self.data = None;
    }
}

/// What a store holds: its identifier, its module instances and its six
/// address spaces.
pub struct StoreView {
    pub id: usize,
    pub instances: Seq<ModuleInstance>,
    pub funcs: Seq<FunctionInstance>,
    pub tables: Seq<TableInstance>,
    pub mems: Seq<MemoryInstance>,
    pub globals: Seq<GlobalInstance>,
    pub elems: Seq<ElemInstance>,
    pub datas: Seq<DataInstance>,
}

/// The runtime store: every instance that instantiated modules allocate,
/// each space indexed by address. Addresses are never reused and spaces
/// never shrink.
#[derive(Debug)]
pub struct Store {
    id: usize,
    module_instances: Vec<ModuleInstance>,
    funcs: Vec<FunctionInstance>,
    tables: Vec<TableInstance>,
    mems: Vec<MemoryInstance>,
    globals: Vec<GlobalInstance>,
    elems: Vec<ElemInstance>,
    datas: Vec<DataInstance>,
}

impl View for Store {
    type V = StoreView;

    closed spec fn view(&self) -> StoreView {
        StoreView {
            id: self.id,
            instances: self.module_instances@,
            funcs: self.funcs@,
            tables: self.tables@,
            mems: self.mems@,
            globals: self.globals@,
            elems: self.elems@,
            datas: self.datas@,
        }
    }
}

/// Two stores are equal when they carry the same identifier.
impl PartialEq for Store {
    fn eq(&self, other: &Store) -> bool {
        self.id == other.id
    }
}

impl vstd::std_specs::cmp::PartialEqSpecImpl for Store {
    open spec fn obeys_eq_spec() -> bool {
        true
    }

    open spec fn eq_spec(&self, other: &Store) -> bool {
        self@.id == other@.id
    }
}

impl Store {
    /// Every table and memory of the store is well formed.
    pub open spec fn wf(&self) -> bool {
        &&& forall|i: int| 0 <= i < self@.tables.len() ==> (#[trigger] self@.tables[i]).wf()
        &&& forall|i: int| 0 <= i < self@.mems.len() ==> (#[trigger] self@.mems[i]).wf()
    }

    /// An empty store named `id`; the caller keeps names unique.
    pub fn new(id: usize) -> (r: Store)
        ensures
            r.wf(),
            r@ == (StoreView {
                id,
                instances: Seq::empty(),
                funcs: Seq::empty(),
                tables: Seq::empty(),
                mems: Seq::empty(),
                globals: Seq::empty(),
                elems: Seq::empty(),
                datas: Seq::empty(),
            }),
    {
        let r = Store {
            id,
            module_instances: Vec::new(),
            funcs: Vec::new(),
            tables: Vec::new(),
            mems: Vec::new(),
            globals: Vec::new(),
            elems: Vec::new(),
            datas: Vec::new(),
        };
        assert(r@.instances =~= Seq::empty());
        r
    }

    /// The module instance with id `addr`.
    pub fn get_module_instance(&self, addr: ModuleInstanceAddr) -> (r: Option<&ModuleInstance>)
        ensures
            addr < self@.instances.len() ==> r == Some(&self@.instances[addr as int]),
            addr >= self@.instances.len() ==> r is None,
    {
        let i = addr as usize;
        if i < self.module_instances.len() {
            Some(&self.module_instances[i])
        } else {
            None
        }
    }

    /// The store's identifier.
    pub fn id(&self) -> (r: usize)
        ensures
            r == self@.id,
    {
        self.id
    }

    /// The id the next module instance must carry.
    pub fn next_module_instance_idx(&self) -> (r: ModuleInstanceAddr)
        requires
            self@.instances.len() <= u32::MAX,
        ensures
            r == self@.instances.len(),
    {
        self.module_instances.len() as ModuleInstanceAddr
    }

    /// Installs a fully built module instance, whose id is the number of
    /// instances installed before it.
    pub fn add_instance(&mut self, instance: ModuleInstance) -> (r: Result<(), Error>)
        requires
            instance.id == old(self)@.instances.len(),
        ensures
            r is Ok,
            final(self)@ == (StoreView { instances: old(self)@.instances.push(instance), ..old(self)@ }),
    {
        self.module_instances.push(instance);
        Ok(())
    }

    /// Allocates a Wasm function instance for each `(type index, body)`.
    pub fn init_funcs(&mut self, funcs: Vec<(u32, WasmFunction)>, idx: ModuleInstanceAddr) -> (r: Result<
        Vec<FuncAddr>,
        Error,
    >)
        requires
            old(self)@.funcs.len() + funcs@.len() <= u32::MAX,
        ensures
            r is Ok,
            r->Ok_0@ == consecutive(old(self)@.funcs.len(), funcs@.len()),
            final(self)@ == (StoreView {
                funcs: old(self)@.funcs + wasm_functions(funcs@, idx),
                ..old(self)@
            }),
    {
        let count = self.funcs.len();
        let ghost fs = funcs@;
        let mut addrs: Vec<FuncAddr> = Vec::new();
        for f in it: funcs.into_iter()
            invariant
                it.seq() == fs,
                count == old(self)@.funcs.len(),
                count + fs.len() <= u32::MAX,
                addrs@ == consecutive(count as nat, it.index() as nat),
                self@ == (StoreView {
                    funcs: old(self)@.funcs + wasm_functions(fs.take(it.index()), idx),
                    ..old(self)@
                }),
        {
            let (type_idx, body) = f;
            let a = (count + addrs.len()) as FuncAddr;
            self.funcs.push(FunctionInstance { func: Function::Wasm(body), type_idx, owner: idx });
            addrs.push(a);
            assert(addrs@ =~= consecutive(count as nat, (it.index() + 1) as nat));
            assert(wasm_functions(fs.take(it.index()), idx).push(self.funcs@.last()) =~= wasm_functions(
                fs.take(it.index() + 1),
                idx,
            ));
        }
        assert(fs.take(fs.len() as int) =~= fs);
        Ok(addrs)
    }

    /// Allocates a table of `initial` uninitialised slots for each type;
    /// stops with `TableOutOfBounds` at a type whose initial size passes
    /// `MAX_TABLE_SIZE`, keeping the tables allocated before it.
    pub fn init_tables(&mut self, tables: Vec<TableType>, idx: ModuleInstanceAddr) -> (r: Result<
        Vec<TableAddr>,
        Error,
    >)
        requires
            old(self).wf(),
            old(self)@.tables.len() + tables@.len() <= u32::MAX,
        ensures
            final(self).wf(),
            ({
                let n0 = old(self)@.tables.len();
                let k = final(self)@.tables.len() - n0;
                &&& final(self)@ == (StoreView { tables: final(self)@.tables, ..old(self)@ })
                &&& n0 <= final(self)@.tables.len() <= n0 + tables@.len()
                &&& final(self)@.tables.subrange(0, n0 as int) == old(self)@.tables
                &&& forall|i: int| 0 <= i < k ==> fresh_table(#[trigger] final(self)@.tables[n0 + i], tables@[i], idx)
                &&& forall|i: int| 0 <= i < k ==> (#[trigger] tables@[i]).size_initial <= MAX_TABLE_SIZE
                &&& r is Ok <==> forall|i: int| 0 <= i < tables@.len() ==> (#[trigger] tables@[i]).size_initial <= MAX_TABLE_SIZE
                &&& r is Ok ==> k == tables@.len() && r->Ok_0@ == consecutive(n0, tables@.len())
                &&& r is Err ==> {
                    &&& k < tables@.len()
                    &&& tables@[k].size_initial > MAX_TABLE_SIZE
                    &&& r->Err_0 == Error::Trap(Trap::TableOutOfBounds {
                        offset: 0,
                        len: tables@[k].size_initial as usize,
                        max: MAX_TABLE_SIZE as usize,
                    })
                }
            }),
    {
        let count = self.tables.len();
        let ghost ts = tables@;
        let mut addrs: Vec<TableAddr> = Vec::new();
        for t in it: tables.into_iter()
            invariant
                it.seq() == ts,
                count == old(self)@.tables.len(),
                count + ts.len() <= u32::MAX,
                self.wf(),
                addrs@ == consecutive(count as nat, it.index() as nat),
                self@ == (StoreView { tables: self@.tables, ..old(self)@ }),
                self@.tables.len() == count + it.index(),
                self@.tables.subrange(0, count as int) == old(self)@.tables,
                forall|i: int| 0 <= i < it.index() ==> fresh_table(#[trigger] self@.tables[count + i], ts[i], idx),
                forall|i: int| 0 <= i < it.index() ==> (#[trigger] ts[i]).size_initial <= MAX_TABLE_SIZE,
        {
            if t.size_initial > MAX_TABLE_SIZE {
                return Err(Error::Trap(Trap::TableOutOfBounds {
                    offset: 0,
                    len: t.size_initial as usize,
                    max: MAX_TABLE_SIZE as usize,
                }));
            }
            let a = (count + addrs.len()) as TableAddr;
            let ghost prev = self@.tables;
            let ghost prev_mems = self@.mems;
            self.tables.push(TableInstance::new(t, idx));
            addrs.push(a);
            assert(self@.mems == prev_mems);
            assert forall|i: int| 0 <= i < self@.tables.len() implies (#[trigger] self@.tables[i]).wf() by {
                if i < prev.len() {
                    assert(self@.tables[i] == prev[i]);
                }
            }
            assert(addrs@ =~= consecutive(count as nat, (it.index() + 1) as nat));
            assert(self@.tables.subrange(0, count as int) =~= old(self)@.tables);
        }
        Ok(addrs)
    }

    /// Allocates a zeroed memory for each type; stops with
    /// `UnsupportedFeature` at a 64-bit memory, keeping the memories
    /// allocated before it.
    pub fn init_mems(&mut self, mems: Vec<MemoryType>, idx: ModuleInstanceAddr) -> (r: Result<
        Vec<MemAddr>,
        Error,
    >)
        requires
            old(self).wf(),
            old(self)@.mems.len() + mems@.len() <= u32::MAX,
            forall|i: int| 0 <= i < mems@.len() && all_i32_through(mems@, i) ==> allocatable(#[trigger] mems@[i]),
        ensures
            final(self).wf(),
            ({
                let n0 = old(self)@.mems.len();
                let k = final(self)@.mems.len() - n0;
                &&& final(self)@ == (StoreView { mems: final(self)@.mems, ..old(self)@ })
                &&& n0 <= final(self)@.mems.len() <= n0 + mems@.len()
                &&& final(self)@.mems.subrange(0, n0 as int) == old(self)@.mems
                &&& forall|i: int| 0 <= i < k ==> fresh_memory(#[trigger] final(self)@.mems[n0 + i], mems@[i], idx)
                &&& forall|i: int| 0 <= i < k ==> (#[trigger] mems@[i]).arch is I32
                &&& r is Ok <==> forall|i: int| 0 <= i < mems@.len() ==> (#[trigger] mems@[i]).arch is I32
                &&& r is Ok ==> k == mems@.len() && r->Ok_0@ == consecutive(n0, mems@.len())
                &&& r is Err ==> {
                    &&& k < mems@.len()
                    &&& mems@[k].arch is I64
                    &&& r->Err_0 is UnsupportedFeature
                    &&& r->Err_0.msg() == "64-bit memories"@
                }
            }),
    {
        let count = self.mems.len();
        let ghost ms = mems@;
        let mut addrs: Vec<MemAddr> = Vec::new();
        for m in it: mems.into_iter()
            invariant
                it.seq() == ms,
                count == old(self)@.mems.len(),
                count + ms.len() <= u32::MAX,
                forall|i: int| 0 <= i < ms.len() && all_i32_through(ms, i) ==> allocatable(#[trigger] ms[i]),
                self.wf(),
                addrs@ == consecutive(count as nat, it.index() as nat),
                self@ == (StoreView { mems: self@.mems, ..old(self)@ }),
                self@.mems.len() == count + it.index(),
                self@.mems.subrange(0, count as int) == old(self)@.mems,
                forall|i: int| 0 <= i < it.index() ==> fresh_memory(#[trigger] self@.mems[count + i], ms[i], idx),
                forall|i: int| 0 <= i < it.index() ==> (#[trigger] ms[i]).arch is I32,
        {
            if let MemoryArch::I64 = m.arch {
                proof {
                    reveal_strlit("64-bit memories");
                }
                return Err(Error::UnsupportedFeature("64-bit memories".to_string()));
            }
            proof {
                assert(all_i32_through(ms, it.index() as int));
            }
            let a = (count + addrs.len()) as MemAddr;
            let ghost prev = self@.mems;
            let ghost prev_tables = self@.tables;
            self.mems.push(MemoryInstance::new(m, idx));
            addrs.push(a);
            assert(self@.tables == prev_tables);
            assert forall|i: int| 0 <= i < self@.mems.len() implies (#[trigger] self@.mems[i]).wf() by {
                if i < prev.len() {
                    assert(self@.mems[i] == prev[i]);
                }
            }
            assert(addrs@ =~= consecutive(count as nat, (it.index() + 1) as nat));
            assert(self@.mems.subrange(0, count as int) =~= old(self)@.mems);
        }
        Ok(addrs)
    }

    /// Evaluates a constant expression against the store's globals.
    pub fn eval_const(&self, const_instr: &ConstInstruction) -> (r: Result<RawWasmValue, Error>)
        ensures
            const_value(self@.globals, *const_instr) is Some ==> r == Ok::<RawWasmValue, Error>(
                const_value(self@.globals, *const_instr)->Some_0,
            ),
            const_value(self@.globals, *const_instr) is None ==> {
                &&& r is Err
                &&& r->Err_0 is Other
                &&& r->Err_0.msg() == "global not found"@
            },
    {
        match const_instr {
            ConstInstruction::I32Const(i) => Ok(RawWasmValue::from_i32(*i)),
            ConstInstruction::I64Const(i) => Ok(RawWasmValue::from_i64(*i)),
            ConstInstruction::F32Const(b) => Ok(RawWasmValue(*b as u64)),
            ConstInstruction::F64Const(b) => Ok(RawWasmValue(*b)),
            ConstInstruction::GlobalGet(a) => {
                let i = *a as usize;
                if i < self.globals.len() {
                    Ok(self.globals[i].value)
                } else {
                    proof {
                        reveal_strlit("global not found");
                    }
                    Err(Error::Other("global not found".to_string()))
                }
            },
            ConstInstruction::RefNull(_) => Ok(RawWasmValue(REF_NULL_BITS)),
            ConstInstruction::RefFunc(f) => Ok(RawWasmValue(*f as u64)),
        }
    }

    /// Evaluates an offset expression: `i32.const` or a read of a global.
    pub fn eval_i32_const(&self, const_instr: &ConstInstruction) -> (r: Result<i32, Error>)
        ensures
            i32_value(self@.globals, *const_instr) is Some ==> r == Ok::<i32, Error>(
                i32_value(self@.globals, *const_instr)->Some_0,
            ),
            i32_value(self@.globals, *const_instr) is None ==> {
                &&& r is Err
                &&& r->Err_0 is Other
                &&& r->Err_0.msg() == i32_error(self@.globals, *const_instr)
            },
            !(*const_instr is I32Const || *const_instr is GlobalGet) ==> {
                &&& r is Err
                &&& r->Err_0 is Other
                &&& r->Err_0.msg() == "expected i32"@
            },
    {
        match const_instr {
            ConstInstruction::I32Const(i) => Ok(*i),
            ConstInstruction::GlobalGet(a) => {
                let i = *a as usize;
                if i < self.globals.len() {
                    Ok(self.globals[i].value.to_i32())
                } else {
                    proof {
                        reveal_strlit("global not found");
                    }
                    Err(Error::Other("global not found".to_string()))
                }
            },
            _ => {
                proof {
                    reveal_strlit("expected i32");
                }
                Err(Error::Other("expected i32".to_string()))
            },
        }
    }

    /// Allocates a global for each definition, with the value of its
    /// initialiser; stops at the first initialiser that cannot be evaluated.
    pub fn init_globals(&mut self, globals: Vec<Global>, idx: ModuleInstanceAddr) -> (r: Result<
        Vec<GlobalAddr>,
        Error,
    >)
        requires
            old(self)@.globals.len() + globals@.len() <= u32::MAX,
        ensures
            final(self)@ == (StoreView {
                globals: global_run(old(self)@.globals, globals@, idx).0,
                ..old(self)@
            }),
            r is Ok <==> global_run(old(self)@.globals, globals@, idx).1,
            r is Ok ==> r->Ok_0@ == consecutive(old(self)@.globals.len(), globals@.len()),
            r is Err ==> r->Err_0 is Other && r->Err_0.msg() == "global not found"@,
    {
        let count = self.globals.len();
        let ghost gs = globals@;
        let mut addrs: Vec<GlobalAddr> = Vec::new();
        let mut i: usize = 0;
        proof {
            assert(gs.take(0) =~= Seq::<Global>::empty());
        }
        while i < globals.len()
            invariant
                gs == globals@,
                i <= gs.len(),
                count == old(self)@.globals.len(),
                count + gs.len() <= u32::MAX,
                global_run(old(self)@.globals, gs.take(i as int), idx).1,
                self@ == (StoreView {
                    globals: global_run(old(self)@.globals, gs.take(i as int), idx).0,
                    ..old(self)@
                }),
                self@.globals.len() == count + i,
                addrs@ == consecutive(count as nat, i as nat),
            decreases gs.len() - i,
        {
            let g = &globals[i];
            proof {
                assert(gs.take(i + 1).drop_last() =~= gs.take(i as int));
                assert(gs.take(i + 1).last() == gs[i as int]);
            }
            let value = match self.eval_const(&g.init) {
                Ok(v) => v,
                Err(e) => {
                    proof {
                        lemma_global_run_stops(old(self)@.globals, gs, idx, i + 1);
                    }
                    return Err(e);
                },
            };
            self.globals.push(GlobalInstance::new(g.ty, value, idx));
            addrs.push((count + i) as GlobalAddr);
            i = i + 1;
            assert(addrs@ =~= consecutive(count as nat, i as nat));
        }
        assert(gs.take(gs.len() as int) =~= gs);
        Ok(addrs)
    }

    /// Allocates an element instance for each segment, in order. A passive
    /// segment keeps its function indices; a declared one is dropped at once;
    /// an active one is copied into its table (indices turned into store
    /// addresses through `func_addrs`) and then dropped. Stops at the first
    /// segment that fails, which changes nothing; earlier ones stay.
    pub fn init_elems(
        &mut self,
        table_addrs: &[TableAddr],
        func_addrs: &[FuncAddr],
        elems: Vec<Element>,
        idx: ModuleInstanceAddr,
    ) -> (r: Result<Vec<ElemAddr>, Error>)
        requires
            old(self).wf(),
            old(self)@.elems.len() + elems@.len() <= u32::MAX,
        ensures
            final(self).wf(),
            ({
                let run = elem_run(
                    old(self)@.globals,
                    table_elem_types(old(self)@.tables),
                    table_slots(old(self)@.tables),
                    table_addrs@,
                    func_addrs@,
                    elems@,
                );
                let n0 = old(self)@.elems.len();
                &&& final(self)@ == (StoreView {
                    tables: final(self)@.tables,
                    elems: final(self)@.elems,
                    ..old(self)@
                })
                &&& final(self)@.tables.len() == old(self)@.tables.len()
                &&& forall|i: int|
                    0 <= i < old(self)@.tables.len() ==> {
                        &&& (#[trigger] final(self)@.tables[i]).table_type() == old(self)@.tables[i].table_type()
                        &&& final(self)@.tables[i].owner_spec() == old(self)@.tables[i].owner_spec()
                    }
                &&& table_slots(final(self)@.tables) == run.0
                &&& final(self)@.elems.len() == n0 + run.1.len()
                &&& final(self)@.elems.subrange(0, n0 as int) == old(self)@.elems
                &&& forall|i: int|
                    0 <= i < run.1.len() ==> {
                        &&& (#[trigger] final(self)@.elems[n0 + i]).kind == elems@[i].kind
                        &&& final(self)@.elems[n0 + i].items_view() == run.1[i]
                        &&& final(self)@.elems[n0 + i].owner == idx
                    }
                &&& r is Ok <==> run.2 is None
                &&& r is Ok ==> r->Ok_0@ == consecutive(n0, elems@.len())
                &&& r is Err ==> r->Err_0.failure() == run.2->Some_0
            }),
    {
        let count = self.elems.len();
        let ghost es = elems@;
        let ghost g0 = self@.globals;
        let ghost types0 = table_elem_types(self@.tables);
        let ghost slots0 = table_slots(self@.tables);
        let mut addrs: Vec<ElemAddr> = Vec::new();
        proof {
            assert(es.take(0) =~= Seq::<Element>::empty());
        }
        for e in it: elems.into_iter()
            invariant
                it.seq() == es,
                count == old(self)@.elems.len(),
                count + es.len() <= u32::MAX,
                g0 == old(self)@.globals,
                types0 == table_elem_types(old(self)@.tables),
                slots0 == table_slots(old(self)@.tables),
                self.wf(),
                self@ == (StoreView { tables: self@.tables, elems: self@.elems, ..old(self)@ }),
                self@.tables.len() == old(self)@.tables.len(),
                forall|i: int|
                    0 <= i < old(self)@.tables.len() ==> {
                        &&& (#[trigger] self@.tables[i]).table_type() == old(self)@.tables[i].table_type()
                        &&& self@.tables[i].owner_spec() == old(self)@.tables[i].owner_spec()
                    },
                elem_run(g0, types0, slots0, table_addrs@, func_addrs@, es.take(it.index())).2 is None,
                table_slots(self@.tables) == elem_run(g0, types0, slots0, table_addrs@, func_addrs@, es.take(it.index())).0,
                elem_run(g0, types0, slots0, table_addrs@, func_addrs@, es.take(it.index())).1.len() == it.index(),
                self@.elems.len() == count + it.index(),
                self@.elems.subrange(0, count as int) == old(self)@.elems,
                forall|i: int|
                    0 <= i < it.index() ==> {
                        &&& (#[trigger] self@.elems[count + i]).kind == es[i].kind
                        &&& self@.elems[count + i].items_view() == elem_run(
                            g0,
                            types0,
                            slots0,
                            table_addrs@,
                            func_addrs@,
                            es.take(it.index()),
                        ).1[i]
                        &&& self@.elems[count + i].owner == idx
                    },
                addrs@ == consecutive(count as nat, it.index() as nat),
        {
            let ghost k = it.index();
            let ghost run = elem_run(g0, types0, slots0, table_addrs@, func_addrs@, es.take(k));
            proof {
                assert(es.take(k + 1).drop_last() =~= es.take(k));
                assert(es.take(k + 1).last() == e);
                assert(types0 == table_elem_types(self@.tables));
            }
            let init = match elem_item_addrs(&e.items) {
                Some(v) => v,
                None => {
                    proof {
                        lemma_elem_run_stops(g0, types0, slots0, table_addrs@, func_addrs@, es, k + 1);
                    }
                    proof {
                        reveal_strlit("element item other than a function reference");
                    }
                    return Err(Error::UnsupportedFeature("element item other than a function reference".to_string()));
                },
            };
            let items: Option<Vec<u32>> = match &e.kind {
                ElementKind::Passive => Some(init),
                ElementKind::Declared => None,
                ElementKind::Active { table, offset } => {
                    let off = match self.eval_i32_const(offset) {
                        Ok(v) => v,
                        Err(err) => {
                            proof {
                                lemma_elem_run_stops(g0, types0, slots0, table_addrs@, func_addrs@, es, k + 1);
                            }
                            return Err(err);
                        },
                    };
                    let t = *table as usize;
                    if t >= table_addrs.len() || table_addrs[t] as usize >= self.tables.len() {
                        proof {
                            lemma_elem_run_stops(g0, types0, slots0, table_addrs@, func_addrs@, es, k + 1);
                        }
                        proof {
                            reveal_strlit("table not found for element segment");
                        }
                        return Err(Error::Other("table not found for element segment".to_string()));
                    }
                    let ta = table_addrs[t] as usize;
                    let src = make_init_slots(&init);
                    let ghost before = self@.tables;
                    let ghost before_mems = self@.mems;
                    let res = self.tables[ta].init(func_addrs, off, src.as_slice());
                    proof {
                        assert(self@.mems == before_mems);
                        assert(self@.tables == before.update(ta as int, self@.tables[ta as int]));
                        assert(table_slots(self@.tables) =~= table_slots(before).update(
                            ta as int,
                            self@.tables[ta as int].elems(),
                        ));
                        assert forall|i: int| 0 <= i < self@.tables.len() implies (#[trigger] self@.tables[i]).wf() by {
                            if i != ta {
                                assert(self@.tables[i] == before[i]);
                            }
                        }
                        assert forall|i: int| 0 <= i < old(self)@.tables.len() implies {
                            &&& (#[trigger] self@.tables[i]).table_type() == old(self)@.tables[i].table_type()
                            &&& self@.tables[i].owner_spec() == old(self)@.tables[i].owner_spec()
                        } by {
                            if i != ta {
                                assert(self@.tables[i] == before[i]);
                            }
                        }
                    }
                    match res {
                        Ok(()) => {},
                        Err(err) => {
                            proof {
                                assert(table_slots(self@.tables) =~= table_slots(before));
                                lemma_elem_run_stops(g0, types0, slots0, table_addrs@, func_addrs@, es, k + 1);
                            }
                            return Err(err);
                        },
                    }
                    None
                },
            };
            let ghost prev = self@;
            let ghost prev_elems = self@.elems;
            self.elems.push(ElemInstance::new(e.kind, idx, items));
            addrs.push((count + addrs.len()) as ElemAddr);
            proof {
                assert(self@.mems == prev.mems);
                assert(self@.tables == prev.tables);
                assert(addrs@ =~= consecutive(count as nat, (k + 1) as nat));
                assert(self@.elems.subrange(0, count as int) =~= old(self)@.elems);
                assert forall|i: int| 0 <= i < k + 1 implies {
                    &&& (#[trigger] self@.elems[count + i]).kind == es[i].kind
                    &&& self@.elems[count + i].items_view() == elem_run(
                        g0,
                        types0,
                        slots0,
                        table_addrs@,
                        func_addrs@,
                        es.take(k + 1),
                    ).1[i]
                    &&& self@.elems[count + i].owner == idx
                } by {
                    if i < k {
                        assert(self@.elems[count + i] == prev_elems[count + i]);
                    }
                }
            }
        }
        proof {
            assert(es.take(es.len() as int) =~= es);
        }
        Ok(addrs)
    }

    /// Runs the data segments in order. An active segment, which must target
    /// memory 0, is written into the memory at `mem_addrs[0]` and gets no
    /// instance; a passive one gets a data instance. Returns the addresses of
    /// the data instances allocated. Stops at the first segment that fails,
    /// which changes nothing; earlier ones stay.
    pub fn init_datas(&mut self, mem_addrs: &[MemAddr], datas: Vec<Data>, idx: ModuleInstanceAddr) -> (r: Result<
        Vec<DataAddr>,
        Error,
    >)
        requires
            old(self).wf(),
            old(self)@.datas.len() + datas@.len() <= u32::MAX,
        ensures
            final(self).wf(),
            ({
                let run = data_run(old(self)@.globals, mem_bytes(old(self)@.mems), mem_addrs@, datas@);
                let n0 = old(self)@.datas.len();
                &&& final(self)@ == (StoreView {
                    mems: final(self)@.mems,
                    datas: final(self)@.datas,
                    ..old(self)@
                })
                &&& final(self)@.mems.len() == old(self)@.mems.len()
                &&& forall|i: int|
                    0 <= i < old(self)@.mems.len() ==> {
                        &&& (#[trigger] final(self)@.mems[i]).memory_type() == old(self)@.mems[i].memory_type()
                        &&& final(self)@.mems[i].owner_spec() == old(self)@.mems[i].owner_spec()
                        &&& final(self)@.mems[i].pages() == old(self)@.mems[i].pages()
                    }
                &&& mem_bytes(final(self)@.mems) == run.0
                &&& final(self)@.datas.len() == n0 + run.1.len()
                &&& final(self)@.datas.subrange(0, n0 as int) == old(self)@.datas
                &&& forall|i: int|
                    0 <= i < run.1.len() ==> {
                        &&& (#[trigger] final(self)@.datas[n0 + i]).bytes_view() == Some(run.1[i])
                        &&& final(self)@.datas[n0 + i].owner == idx
                    }
                &&& r is Ok <==> run.2 is None
                &&& r is Ok ==> r->Ok_0@ == consecutive(n0, run.1.len())
                &&& r is Err ==> r->Err_0.failure() == run.2->Some_0
            }),
    {
        let count = self.datas.len();
        let ghost ds = datas@;
        let ghost g0 = self@.globals;
        let ghost bytes0 = mem_bytes(self@.mems);
        let mut addrs: Vec<DataAddr> = Vec::new();
        proof {
            assert(ds.take(0) =~= Seq::<Data>::empty());
        }
        for d in it: datas.into_iter()
            invariant
                it.seq() == ds,
                count == old(self)@.datas.len(),
                count + ds.len() <= u32::MAX,
                g0 == old(self)@.globals,
                bytes0 == mem_bytes(old(self)@.mems),
                self.wf(),
                self@ == (StoreView { mems: self@.mems, datas: self@.datas, ..old(self)@ }),
                self@.mems.len() == old(self)@.mems.len(),
                forall|i: int|
                    0 <= i < old(self)@.mems.len() ==> {
                        &&& (#[trigger] self@.mems[i]).memory_type() == old(self)@.mems[i].memory_type()
                        &&& self@.mems[i].owner_spec() == old(self)@.mems[i].owner_spec()
                        &&& self@.mems[i].pages() == old(self)@.mems[i].pages()
                    },
                data_run(g0, bytes0, mem_addrs@, ds.take(it.index())).2 is None,
                mem_bytes(self@.mems) == data_run(g0, bytes0, mem_addrs@, ds.take(it.index())).0,
                self@.datas.len() == count + data_run(g0, bytes0, mem_addrs@, ds.take(it.index())).1.len(),
                data_run(g0, bytes0, mem_addrs@, ds.take(it.index())).1.len() <= it.index(),
                self@.datas.subrange(0, count as int) == old(self)@.datas,
                forall|i: int|
                    0 <= i < data_run(g0, bytes0, mem_addrs@, ds.take(it.index())).1.len() ==> {
                        &&& (#[trigger] self@.datas[count + i]).bytes_view() == Some(
                            data_run(g0, bytes0, mem_addrs@, ds.take(it.index())).1[i],
                        )
                        &&& self@.datas[count + i].owner == idx
                    },
                addrs@ == consecutive(count as nat, data_run(g0, bytes0, mem_addrs@, ds.take(it.index())).1.len()),
        {
            let ghost k = it.index();
            let ghost run = data_run(g0, bytes0, mem_addrs@, ds.take(k));
            proof {
                assert(ds.take(k + 1).drop_last() =~= ds.take(k));
                assert(ds.take(k + 1).last() == d);
            }
            match &d.kind {
                DataKind::Active { mem, offset } => {
                    if *mem != 0 {
                        proof {
                            lemma_data_run_stops(g0, bytes0, mem_addrs@, ds, k + 1);
                        }
                        proof {
                            reveal_strlit("data segments for non-zero memories");
                        }
                        return Err(Error::UnsupportedFeature("data segments for non-zero memories".to_string()));
                    }
                    if mem_addrs.len() == 0 {
                        proof {
                            lemma_data_run_stops(g0, bytes0, mem_addrs@, ds, k + 1);
                        }
                        proof {
                            reveal_strlit("memory not found for data segment");
                        }
                        return Err(Error::Other("memory not found for data segment".to_string()));
                    }
                    let off = match self.eval_i32_const(offset) {
                        Ok(v) => v,
                        Err(err) => {
                            proof {
                                lemma_data_run_stops(g0, bytes0, mem_addrs@, ds, k + 1);
                            }
                            return Err(err);
                        },
                    };
                    let ma = mem_addrs[0] as usize;
                    if ma >= self.mems.len() {
                        proof {
                            lemma_data_run_stops(g0, bytes0, mem_addrs@, ds, k + 1);
                        }
                        proof {
                            reveal_strlit("memory not found for data segment");
                        }
                        return Err(Error::Other("memory not found for data segment".to_string()));
                    }
                    let start = unsigned_offset(off);
                    let ghost before = self@.mems;
                    let ghost before_tables = self@.tables;
                    let res = self.mems[ma].store(start, 0, d.data.as_slice());
                    proof {
                        assert(self@.tables == before_tables);
                        assert(self@.mems == before.update(ma as int, self@.mems[ma as int]));
                        assert(mem_bytes(self@.mems) =~= mem_bytes(before).update(
                            ma as int,
                            self@.mems[ma as int].bytes(),
                        ));
                        assert forall|i: int| 0 <= i < self@.mems.len() implies (#[trigger] self@.mems[i]).wf() by {
                            if i != ma {
                                assert(self@.mems[i] == before[i]);
                            }
                        }
                        assert forall|i: int| 0 <= i < old(self)@.mems.len() implies {
                            &&& (#[trigger] self@.mems[i]).memory_type() == old(self)@.mems[i].memory_type()
                            &&& self@.mems[i].owner_spec() == old(self)@.mems[i].owner_spec()
                            &&& self@.mems[i].pages() == old(self)@.mems[i].pages()
                        } by {
                            if i != ma {
                                assert(self@.mems[i] == before[i]);
                            }
                        }
                    }
                    match res {
                        Ok(()) => {},
                        Err(err) => {
                            proof {
                                assert(mem_bytes(self@.mems) =~= mem_bytes(before));
                                lemma_data_run_stops(g0, bytes0, mem_addrs@, ds, k + 1);
                            }
                            return Err(err);
                        },
                    }
                },
                DataKind::Passive => {
                    let ghost prev = self@;
                    let a = self.datas.len() as DataAddr;
                    self.datas.push(DataInstance::new(d.data, idx));
                    addrs.push(a);
                    proof {
                        assert(self@.mems == prev.mems);
                        assert(self@.tables == prev.tables);
                        assert(self@.datas.subrange(0, count as int) =~= old(self)@.datas);
                        let run2 = data_run(g0, bytes0, mem_addrs@, ds.take(k + 1));
                        assert(addrs@ =~= consecutive(count as nat, run2.1.len()));
                        assert forall|i: int| 0 <= i < run2.1.len() implies {
                            &&& (#[trigger] self@.datas[count + i]).bytes_view() == Some(run2.1[i])
                            &&& self@.datas[count + i].owner == idx
                        } by {
                            if i < run.1.len() {
                                assert(self@.datas[count + i] == prev.datas[count + i]);
                            }
                        }
                    }
                },
            }
        }
        proof {
            assert(ds.take(ds.len() as int) =~= ds);
        }
        Ok(addrs)
    }

    /// Allocates one global.
    pub fn add_global(&mut self, ty: GlobalType, value: RawWasmValue, idx: ModuleInstanceAddr) -> (r: Result<
        Addr,
        Error,
    >)
        requires
            old(self)@.globals.len() < u32::MAX,
        ensures
            r == Ok::<Addr, Error>(old(self)@.globals.len() as Addr),
            final(self)@ == (StoreView {
                globals: old(self)@.globals.push(GlobalInstance { value, ty, owner: idx }),
                ..old(self)@
            }),
    {
        self.globals.push(GlobalInstance::new(ty, value, idx));
        Ok((self.globals.len() - 1) as Addr)
    }

    /// Allocates one table; fails where its initial size passes `MAX_TABLE_SIZE`.
    pub fn add_table(&mut self, table: TableType, idx: ModuleInstanceAddr) -> (r: Result<TableAddr, Error>)
        requires
            old(self).wf(),
            old(self)@.tables.len() < u32::MAX,
        ensures
            final(self).wf(),
            table.size_initial <= MAX_TABLE_SIZE ==> {
                &&& r == Ok::<TableAddr, Error>(old(self)@.tables.len() as TableAddr)
                &&& final(self)@ == (StoreView { tables: final(self)@.tables, ..old(self)@ })
                &&& final(self)@.tables.len() == old(self)@.tables.len() + 1
                &&& final(self)@.tables.drop_last() == old(self)@.tables
                &&& fresh_table(final(self)@.tables.last(), table, idx)
            },
            table.size_initial > MAX_TABLE_SIZE ==> {
                &&& r == Err::<TableAddr, Error>(Error::Trap(Trap::TableOutOfBounds {
                    offset: 0,
                    len: table.size_initial as usize,
                    max: MAX_TABLE_SIZE as usize,
                }))
                &&& final(self)@ == old(self)@
            },
    {
        if table.size_initial > MAX_TABLE_SIZE {
            return Err(Error::Trap(Trap::TableOutOfBounds {
                offset: 0,
                len: table.size_initial as usize,
                max: MAX_TABLE_SIZE as usize,
            }));
        }
        self.tables.push(TableInstance::new(table, idx));
        assert(self@.tables.drop_last() =~= old(self)@.tables);
        Ok((self.tables.len() - 1) as TableAddr)
    }

    /// Allocates one memory; fails with `UnsupportedFeature` for a 64-bit memory.
    pub fn add_mem(&mut self, mem: MemoryType, idx: ModuleInstanceAddr) -> (r: Result<MemAddr, Error>)
        requires
            old(self).wf(),
            old(self)@.mems.len() < u32::MAX,
            mem.arch is I32 ==> allocatable(mem),
        ensures
            final(self).wf(),
            mem.arch is I32 ==> {
                &&& r == Ok::<MemAddr, Error>(old(self)@.mems.len() as MemAddr)
                &&& final(self)@ == (StoreView { mems: final(self)@.mems, ..old(self)@ })
                &&& final(self)@.mems.len() == old(self)@.mems.len() + 1
                &&& final(self)@.mems.drop_last() == old(self)@.mems
                &&& fresh_memory(final(self)@.mems.last(), mem, idx)
            },
            mem.arch is I64 ==> {
                &&& r is Err
                &&& r->Err_0 is UnsupportedFeature
                &&& r->Err_0.msg() == "64-bit memories"@
                &&& final(self)@ == old(self)@
            },
    {
        if let MemoryArch::I64 = mem.arch {
            proof {
                reveal_strlit("64-bit memories");
            }
            return Err(Error::UnsupportedFeature("64-bit memories".to_string()));
        }
        self.mems.push(MemoryInstance::new(mem, idx));
        assert(self@.mems.drop_last() =~= old(self)@.mems);
        Ok((self.mems.len() - 1) as MemAddr)
    }

    /// Allocates one function.
    pub fn add_func(&mut self, func: Function, type_idx: TypeAddr, idx: ModuleInstanceAddr) -> (r: Result<
        FuncAddr,
        Error,
    >)
        requires
            old(self)@.funcs.len() < u32::MAX,
        ensures
            r == Ok::<FuncAddr, Error>(old(self)@.funcs.len() as FuncAddr),
            final(self)@ == (StoreView {
                funcs: old(self)@.funcs.push(FunctionInstance { func, type_idx, owner: idx }),
                ..old(self)@
            }),
    {
        self.funcs.push(FunctionInstance { func, type_idx, owner: idx });
        Ok((self.funcs.len() - 1) as FuncAddr)
    }

    /// The function at `addr`.
    pub fn get_func(&self, addr: usize) -> (r: Result<&FunctionInstance, Error>)
        ensures
            addr < self@.funcs.len() ==> r == Ok::<&FunctionInstance, Error>(&self@.funcs[addr as int]),
            addr >= self@.funcs.len() ==> r is Err && r->Err_0 is Other && r->Err_0.msg() == "function not found"@,
    {
        if addr < self.funcs.len() {
            Ok(&self.funcs[addr])
        } else {
            proof {
                reveal_strlit("function not found");
            }
            Err(Error::Other("function not found".to_string()))
        }
    }

    /// The memory at `addr`.
    pub fn get_mem(&self, addr: usize) -> (r: Result<&MemoryInstance, Error>)
        ensures
            addr < self@.mems.len() ==> r == Ok::<&MemoryInstance, Error>(&self@.mems[addr as int]),
            addr >= self@.mems.len() ==> r is Err && r->Err_0 is Other && r->Err_0.msg() == "memory not found"@,
    {
        if addr < self.mems.len() {
            Ok(&self.mems[addr])
        } else {
            proof {
                reveal_strlit("memory not found");
            }
            Err(Error::Other("memory not found".to_string()))
        }
    }

    /// The memory at `addr`, to change in place.
    pub fn get_mem_mut(&mut self, addr: usize) -> (r: &mut MemoryInstance)
        requires
            addr < old(self)@.mems.len(),
        ensures
            *r == old(self)@.mems[addr as int],
            final(self)@ == (StoreView { mems: old(self)@.mems.update(addr as int, *final(r)), ..old(self)@ }),
    {
        &mut self.mems[addr]
    }

    /// The table at `addr`.
    pub fn get_table(&self, addr: usize) -> (r: Result<&TableInstance, Error>)
        ensures
            addr < self@.tables.len() ==> r == Ok::<&TableInstance, Error>(&self@.tables[addr as int]),
            addr >= self@.tables.len() ==> r is Err && r->Err_0 is Other && r->Err_0.msg() == "table not found"@,
    {
        if addr < self.tables.len() {
            Ok(&self.tables[addr])
        } else {
            proof {
                reveal_strlit("table not found");
            }
            Err(Error::Other("table not found".to_string()))
        }
    }

    /// The table at `addr`, to change in place.
    pub fn get_table_mut(&mut self, addr: usize) -> (r: &mut TableInstance)
        requires
            addr < old(self)@.tables.len(),
        ensures
            *r == old(self)@.tables[addr as int],
            final(self)@ == (StoreView {
                tables: old(self)@.tables.update(addr as int, *final(r)),
                ..old(self)@
            }),
    {
        &mut self.tables[addr]
    }

    /// The element instance at `addr`.
    pub fn get_elem(&self, addr: usize) -> (r: Result<&ElemInstance, Error>)
        ensures
            addr < self@.elems.len() ==> r == Ok::<&ElemInstance, Error>(&self@.elems[addr as int]),
            addr >= self@.elems.len() ==> r is Err && r->Err_0 is Other && r->Err_0.msg() == "element not found"@,
    {
        if addr < self.elems.len() {
            Ok(&self.elems[addr])
        } else {
            proof {
                reveal_strlit("element not found");
            }
            Err(Error::Other("element not found".to_string()))
        }
    }

    /// The data instance at `addr`.
    pub fn get_data(&self, addr: usize) -> (r: Result<&DataInstance, Error>)
        ensures
            addr < self@.datas.len() ==> r == Ok::<&DataInstance, Error>(&self@.datas[addr as int]),
            addr >= self@.datas.len() ==> r is Err && r->Err_0 is Other && r->Err_0.msg() == "data not found"@,
    {
        if addr < self.datas.len() {
            Ok(&self.datas[addr])
        } else {
            proof {
                reveal_strlit("data not found");
            }
            Err(Error::Other("data not found".to_string()))
        }
    }

    /// The value of the global at `addr`.
    pub fn get_global_val(&self, addr: usize) -> (r: Result<RawWasmValue, Error>)
        ensures
            addr < self@.globals.len() ==> r == Ok::<RawWasmValue, Error>(self@.globals[addr as int].value),
            addr >= self@.globals.len() ==> r is Err && r->Err_0 is Other && r->Err_0.msg() == "global not found"@,
    {
        if addr < self.globals.len() {
            Ok(self.globals[addr].value)
        } else {
            proof {
                reveal_strlit("global not found");
            }
            Err(Error::Other("global not found".to_string()))
        }
    }

    /// Sets the value of the global at `addr`; mutability is the caller's concern.
    pub fn set_global_val(&mut self, addr: usize, value: RawWasmValue) -> (r: Result<(), Error>)
        ensures
            addr < old(self)@.globals.len() ==> {
                &&& r is Ok
                &&& final(self)@ == (StoreView {
                    globals: old(self)@.globals.update(
                        addr as int,
                        GlobalInstance { value, ..old(self)@.globals[addr as int] },
                    ),
                    ..old(self)@
                })
            },
            addr >= old(self)@.globals.len() ==> {
                &&& r is Err
                &&& r->Err_0 is Other
                &&& r->Err_0.msg() == "global not found"@
                &&& final(self)@ == old(self)@
            },
    {
        if addr < self.globals.len() {
            self.globals[addr].value = value;
            Ok(())
        } else {
            proof {
                reveal_strlit("global not found");
            }
            Err(Error::Other("global not found".to_string()))
        }
    }
}

} // verus!
