//! What instantiation does to a store, stated over plain sequences: constant
//! evaluation, allocation of each kind of definition, and element and data
//! segments run in order, stopping at the first that fails.
use vstd::prelude::*;
use tinywasm_types::{MemoryType, ModuleInstanceAddr, TableType, ValType, WasmFunction};
use crate::error::{ErrorKind, Failure, Trap};
use crate::memory::{overwrite, page_limit, zeros, MemoryInstance, PAGE_SIZE};
use crate::store::{Function, FunctionInstance, GlobalInstance};
use crate::table::{resolved, resolves, uninit, TableElement, TableInstance};
use crate::types::{
    item_func, unsigned, ConstInstruction, Data, DataKind, Element, ElementItem, ElementKind, Global, RawWasmValue,
    REF_NULL_BITS,
};

verus! {

/// The addresses `start, start + 1, ..., start + n - 1`.
pub open spec fn consecutive(start: nat, n: nat) -> Seq<u32> {
    Seq::new(n, |i: int| (start + i) as u32)
}

/// The raw value of a constant expression, evaluated against `globals`;
/// `None` where it reads a global that does not exist.
pub open spec fn const_value(globals: Seq<GlobalInstance>, c: ConstInstruction) -> Option<RawWasmValue> {
    match c {
        ConstInstruction::I32Const(i) => Some(RawWasmValue(i as u32 as u64)),
        ConstInstruction::I64Const(i) => Some(RawWasmValue(i as u64)),
        ConstInstruction::F32Const(b) => Some(RawWasmValue(b as u64)),
        ConstInstruction::F64Const(b) => Some(RawWasmValue(b)),
        ConstInstruction::GlobalGet(a) => if a < globals.len() {
            Some(globals[a as int].value)
        } else {
            None
        },
        ConstInstruction::RefNull(_) => Some(RawWasmValue(REF_NULL_BITS)),
        ConstInstruction::RefFunc(f) => Some(RawWasmValue(f as u64)),
    }
}

/// The `i32` of an offset expression, evaluated against `globals`; `None`
/// where it is neither `i32.const` nor a read of an existing global.
pub open spec fn i32_value(globals: Seq<GlobalInstance>, c: ConstInstruction) -> Option<i32> {
    match c {
        ConstInstruction::I32Const(i) => Some(i),
        ConstInstruction::GlobalGet(a) => if a < globals.len() {
            Some(globals[a as int].value.0 as u32 as i32)
        } else {
            None
        },
        _ => None,
    }
}

/// The message of the error for an offset expression without an `i32` value.
pub open spec fn i32_error(globals: Seq<GlobalInstance>, c: ConstInstruction) -> Seq<char> {
    match c {
        ConstInstruction::GlobalGet(_) => "global not found"@,
        _ => "expected i32"@,
    }
}

/// The globals after allocating `gs` in order on top of `start`, and whether
/// every initialiser could be evaluated; allocation stops at the first that
/// cannot.
pub open spec fn global_run(start: Seq<GlobalInstance>, gs: Seq<Global>, owner: ModuleInstanceAddr) -> (
    Seq<GlobalInstance>,
    bool,
)
    decreases gs.len(),
{
    if gs.len() == 0 {
        (start, true)
    } else {
        let (s, ok) = global_run(start, gs.drop_last(), owner);
        if !ok {
            (s, false)
        } else {
            match const_value(s, gs.last().init) {
                Some(v) => (s.push(GlobalInstance { value: v, ty: gs.last().ty, owner }), true),
                None => (s, false),
            }
        }
    }
}

/// The functions allocated for `funcs`.
pub open spec fn wasm_functions(funcs: Seq<(u32, WasmFunction)>, owner: ModuleInstanceAddr) -> Seq<
    FunctionInstance,
> {
    Seq::new(
        funcs.len(),
        |i: int| FunctionInstance { func: Function::Wasm(funcs[i].1), type_idx: funcs[i].0, owner },
    )
}

/// `m` is a fresh memory of type `kind` owned by `owner`.
pub open spec fn fresh_memory(m: MemoryInstance, kind: MemoryType, owner: ModuleInstanceAddr) -> bool {
    &&& m.wf()
    &&& m.memory_type() == kind
    &&& m.owner_spec() == owner
    &&& m.pages() == kind.page_count_initial
    &&& m.bytes() == zeros(m.bytes().len())
}

/// `t` is a fresh table of type `kind` owned by `owner`.
pub open spec fn fresh_table(t: TableInstance, kind: TableType, owner: ModuleInstanceAddr) -> bool {
    &&& t.wf()
    &&& t.table_type() == kind
    &&& t.owner_spec() == owner
    &&& t.elems() == uninit(kind.size_initial as nat)
}

/// Once an initialiser fails, the later globals change nothing.
pub proof fn lemma_global_run_stops(start: Seq<GlobalInstance>, gs: Seq<Global>, owner: ModuleInstanceAddr, k: int)
    requires
        0 <= k <= gs.len(),
        !global_run(start, gs.take(k), owner).1,
    ensures
        global_run(start, gs, owner) == global_run(start, gs.take(k), owner),
    decreases gs.len() - k,
{
    if k < gs.len() {
        assert(gs.take(k + 1).drop_last() =~= gs.take(k));
        lemma_global_run_stops(start, gs, owner, k + 1);
    } else {
        assert(gs.take(k) =~= gs);
    }
}

/// The function indices of a segment's items; `None` where an item is not a
/// function reference.
pub open spec fn item_addrs(items: Seq<ElementItem>) -> Option<Seq<u32>> {
    if forall|i: int| 0 <= i < items.len() ==> (#[trigger] item_func(items[i])) is Some {
        Some(Seq::new(items.len(), |i: int| item_func(items[i])->Some_0))
    } else {
        None
    }
}

/// Initialised slots holding `addrs`.
pub open spec fn init_slots(addrs: Seq<u32>) -> Seq<TableElement> {
    Seq::new(addrs.len(), |i: int| TableElement::Initialized(addrs[i]))
}

/// The slots of every table of `tables`.
pub open spec fn table_slots(tables: Seq<TableInstance>) -> Seq<Seq<TableElement>> {
    Seq::new(tables.len(), |i: int| tables[i].elems())
}

/// The element type of every table of `tables`.
pub open spec fn table_elem_types(tables: Seq<TableInstance>) -> Seq<ValType> {
    Seq::new(tables.len(), |i: int| tables[i].table_type().element_type)
}

/// One element segment at instantiation: the table slots after it, and the
/// items its instance keeps (`None`: dropped at once); or the kind of error
/// it fails with, having changed nothing.
pub open spec fn elem_step(
    globals: Seq<GlobalInstance>,
    types: Seq<ValType>,
    slots: Seq<Seq<TableElement>>,
    table_addrs: Seq<u32>,
    func_addrs: Seq<u32>,
    e: Element,
) -> Result<(Seq<Seq<TableElement>>, Option<Seq<u32>>), Failure> {
    match item_addrs(e.items@) {
        None => Err(Failure {
            kind: ErrorKind::UnsupportedFeature,
            msg: "element item other than a function reference"@,
        }),
        Some(init) => match e.kind {
            ElementKind::Passive => Ok((slots, Some(init))),
            ElementKind::Declared => Ok((slots, None)),
            ElementKind::Active { table, offset } => match i32_value(globals, offset) {
                None => Err(Failure { kind: ErrorKind::Other, msg: i32_error(globals, offset) }),
                Some(off) => if table >= table_addrs.len() || table_addrs[table as int] >= slots.len() {
                    Err(Failure { kind: ErrorKind::Other, msg: "table not found for element segment"@ })
                } else {
                    let ta = table_addrs[table as int] as int;
                    let t = types[ta];
                    let src = init_slots(init);
                    if !resolves(t, func_addrs, src) {
                        Err(Failure { kind: ErrorKind::Other, msg: "function not found for table initialisation"@ })
                    } else if unsigned(off) + src.len() > slots[ta].len() {
                        Err(
                            Failure {
                                kind: ErrorKind::Trap(Trap::TableOutOfBounds {
                                    offset: unsigned(off) as usize,
                                    len: src.len() as usize,
                                    max: slots[ta].len() as usize,
                                }),
                                msg: Seq::empty(),
                            },
                        )
                    } else {
                        Ok((slots.update(ta, overwrite(slots[ta], unsigned(off) as int, resolved(t, func_addrs, src))), None))
                    }
                },
            },
        },
    }
}

/// The element segments `es` in order: the table slots after them, the
/// items of the element instances allocated, and the kind of error of the
/// segment that failed, if one did. Nothing runs after a failure.
pub open spec fn elem_run(
    globals: Seq<GlobalInstance>,
    types: Seq<ValType>,
    slots: Seq<Seq<TableElement>>,
    table_addrs: Seq<u32>,
    func_addrs: Seq<u32>,
    es: Seq<Element>,
) -> (Seq<Seq<TableElement>>, Seq<Option<Seq<u32>>>, Option<Failure>)
    decreases es.len(),
{
    if es.len() == 0 {
        (slots, Seq::empty(), None)
    } else {
        let (sl, items, err) = elem_run(globals, types, slots, table_addrs, func_addrs, es.drop_last());
        if err is Some {
            (sl, items, err)
        } else {
            match elem_step(globals, types, sl, table_addrs, func_addrs, es.last()) {
                Ok((sl2, it)) => (sl2, items.push(it), None),
                Err(k) => (sl, items, Some(k)),
            }
        }
    }
}

/// Once a segment fails, the later ones change nothing.
pub proof fn lemma_elem_run_stops(
    globals: Seq<GlobalInstance>,
    types: Seq<ValType>,
    slots: Seq<Seq<TableElement>>,
    table_addrs: Seq<u32>,
    func_addrs: Seq<u32>,
    es: Seq<Element>,
    k: int,
)
    requires
        0 <= k <= es.len(),
        elem_run(globals, types, slots, table_addrs, func_addrs, es.take(k)).2 is Some,
    ensures
        elem_run(globals, types, slots, table_addrs, func_addrs, es) == elem_run(
            globals,
            types,
            slots,
            table_addrs,
            func_addrs,
            es.take(k),
        ),
    decreases es.len() - k,
{
    if k < es.len() {
        assert(es.take(k + 1).drop_last() =~= es.take(k));
        lemma_elem_run_stops(globals, types, slots, table_addrs, func_addrs, es, k + 1);
    } else {
        assert(es.take(k) =~= es);
    }
}

/// The function indices of `items`; `None` where one is not a function reference.
pub(crate) fn elem_item_addrs(items: &Vec<ElementItem>) -> (r: Option<Vec<u32>>)
    ensures
        item_addrs(items@) is Some ==> r is Some && r->Some_0@ == item_addrs(items@)->Some_0,
        item_addrs(items@) is None ==> r is None,
{
    let mut out: Vec<u32> = Vec::new();
    let mut i: usize = 0;
    while i < items.len()
        invariant
            i <= items@.len(),
            out@.len() == i,
            forall|j: int| 0 <= j < i ==> (#[trigger] item_func(items@[j])) is Some,
            forall|j: int| 0 <= j < i ==> out@[j] == (#[trigger] item_func(items@[j]))->Some_0,
        decreases items@.len() - i,
    {
        match items[i].addr() {
            Some(a) => out.push(a),
            None => {
                return None;
            },
        }
        i = i + 1;
    }
    assert(out@ =~= Seq::new(items@.len(), |j: int| item_func(items@[j])->Some_0));
    Some(out)
}

/// Initialised slots holding `addrs`.
pub(crate) fn make_init_slots(addrs: &Vec<u32>) -> (r: Vec<TableElement>)
    ensures
        r@ == init_slots(addrs@),
{
    let mut out: Vec<TableElement> = Vec::new();
    let mut i: usize = 0;
    while i < addrs.len()
        invariant
            i <= addrs@.len(),
            out@ == init_slots(addrs@.take(i as int)),
        decreases addrs@.len() - i,
    {
        out.push(TableElement::Initialized(addrs[i]));
        i = i + 1;
        assert(out@ =~= init_slots(addrs@.take(i as int)));
    }
    assert(addrs@.take(i as int) =~= addrs@);
    out
}

/// The bytes of every memory of `mems`.
pub open spec fn mem_bytes(mems: Seq<MemoryInstance>) -> Seq<Seq<u8>> {
    Seq::new(mems.len(), |i: int| mems[i].bytes())
}

/// One data segment at instantiation: the memory bytes after it, and the
/// bytes of the data instance it allocates (`None`: an active segment,
/// which gets none); or the kind of error it fails with, having changed
/// nothing.
pub open spec fn data_step(
    globals: Seq<GlobalInstance>,
    bytes: Seq<Seq<u8>>,
    mem_addrs: Seq<u32>,
    d: Data,
) -> Result<(Seq<Seq<u8>>, Option<Seq<u8>>), Failure> {
    match d.kind {
        DataKind::Passive => Ok((bytes, Some(d.data@))),
        DataKind::Active { mem, offset } => if mem != 0 {
            Err(Failure { kind: ErrorKind::UnsupportedFeature, msg: "data segments for non-zero memories"@ })
        } else if mem_addrs.len() == 0 {
            Err(Failure { kind: ErrorKind::Other, msg: "memory not found for data segment"@ })
        } else {
            match i32_value(globals, offset) {
                None => Err(Failure { kind: ErrorKind::Other, msg: i32_error(globals, offset) }),
                Some(off) => {
                    let ma = mem_addrs[0] as int;
                    if ma >= bytes.len() {
                        Err(Failure { kind: ErrorKind::Other, msg: "memory not found for data segment"@ })
                    } else if unsigned(off) + d.data@.len() > bytes[ma].len() {
                        Err(
                            Failure {
                                kind: ErrorKind::Trap(Trap::MemoryOutOfBounds {
                                    offset: unsigned(off) as usize,
                                    len: d.data@.len() as usize,
                                    max: bytes[ma].len() as usize,
                                }),
                                msg: Seq::empty(),
                            },
                        )
                    } else {
                        Ok((bytes.update(ma, overwrite(bytes[ma], unsigned(off) as int, d.data@)), None))
                    }
                },
            }
        },
    }
}

/// The data segments `ds` in order: the memory bytes after them, the bytes
/// of the data instances allocated, and the kind of error of the segment
/// that failed, if one did. Nothing runs after a failure.
pub open spec fn data_run(globals: Seq<GlobalInstance>, bytes: Seq<Seq<u8>>, mem_addrs: Seq<u32>, ds: Seq<Data>) -> (
    Seq<Seq<u8>>,
    Seq<Seq<u8>>,
    Option<Failure>,
)
    decreases ds.len(),
{
    if ds.len() == 0 {
        (bytes, Seq::empty(), None)
    } else {
        let (b, passive, err) = data_run(globals, bytes, mem_addrs, ds.drop_last());
        if err is Some {
            (b, passive, err)
        } else {
            match data_step(globals, b, mem_addrs, ds.last()) {
                Ok((b2, Some(p))) => (b2, passive.push(p), None),
                Ok((b2, None)) => (b2, passive, None),
                Err(k) => (b, passive, Some(k)),
            }
        }
    }
}

/// Once a segment fails, the later ones change nothing.
pub proof fn lemma_data_run_stops(
    globals: Seq<GlobalInstance>,
    bytes: Seq<Seq<u8>>,
    mem_addrs: Seq<u32>,
    ds: Seq<Data>,
    k: int,
)
    requires
        0 <= k <= ds.len(),
        data_run(globals, bytes, mem_addrs, ds.take(k)).2 is Some,
    ensures
        data_run(globals, bytes, mem_addrs, ds) == data_run(globals, bytes, mem_addrs, ds.take(k)),
    decreases ds.len() - k,
{
    if k < ds.len() {
        assert(ds.take(k + 1).drop_last() =~= ds.take(k));
        lemma_data_run_stops(globals, bytes, mem_addrs, ds, k + 1);
    } else {
        assert(ds.take(k) =~= ds);
    }
}

/// The addresses an allocation returns rise by one from `start`.
pub proof fn lemma_consecutive_increasing(start: nat, n: nat)
    requires
        start + n <= u32::MAX + 1,
    ensures
        n > 0 ==> consecutive(start, n)[0] == start,
        forall|i: int, j: int| 0 <= i < j < n ==> consecutive(start, n)[i] < consecutive(start, n)[j],
        forall|i: int| 0 <= i < n ==> #[trigger] consecutive(start, n)[i] == start + i,
{
}

/// An active data segment that targets a memory other than 0 fails with
/// `UnsupportedFeature`, and the memories are left as the segments before
/// it made them.
pub proof fn lemma_nonzero_memory_rejected(
    globals: Seq<GlobalInstance>,
    bytes: Seq<Seq<u8>>,
    mem_addrs: Seq<u32>,
    ds: Seq<Data>,
    k: int,
)
    requires
        0 <= k < ds.len(),
        ds[k].kind is Active,
        ds[k].kind->Active_mem != 0,
        data_run(globals, bytes, mem_addrs, ds.take(k)).2 is None,
    ensures
        data_run(globals, bytes, mem_addrs, ds).2 == Some(
            Failure { kind: ErrorKind::UnsupportedFeature, msg: "data segments for non-zero memories"@ },
        ),
        data_run(globals, bytes, mem_addrs, ds).0 == data_run(globals, bytes, mem_addrs, ds.take(k)).0,
{
    assert(ds.take(k + 1).drop_last() =~= ds.take(k));
    assert(ds.take(k + 1).last() == ds[k]);
    lemma_data_run_stops(globals, bytes, mem_addrs, ds, k + 1);
}

/// A passive element segment of `k` function references keeps, once
/// allocated, exactly the `k` function indices of its items, in order.
pub proof fn lemma_passive_elem_round_trip(
    globals: Seq<GlobalInstance>,
    types: Seq<ValType>,
    slots: Seq<Seq<TableElement>>,
    table_addrs: Seq<u32>,
    func_addrs: Seq<u32>,
    e: Element,
)
    requires
        e.kind is Passive,
        forall|i: int| 0 <= i < e.items@.len() ==> (#[trigger] item_func(e.items@[i])) is Some,
    ensures
        ({
            let run = elem_run(globals, types, slots, table_addrs, func_addrs, seq![e]);
            &&& run.2 is None
            &&& run.0 == slots
            &&& run.1.len() == 1
            &&& run.1[0] is Some
            &&& run.1[0]->Some_0.len() == e.items@.len()
            &&& forall|i: int|
                0 <= i < e.items@.len() ==> run.1[0]->Some_0[i] == (#[trigger] item_func(e.items@[i]))->Some_0
        }),
{
    let es = seq![e];
    assert(es.drop_last() =~= Seq::<Element>::empty());
    assert(es.last() == e);
    assert(elem_run(globals, types, slots, table_addrs, func_addrs, Seq::<Element>::empty()) == (
        slots,
        Seq::<Option<Seq<u32>>>::empty(),
        None::<Failure>,
    ));
    assert(item_addrs(e.items@) is Some);
    assert(Seq::<Option<Seq<u32>>>::empty().push(item_addrs(e.items@)) =~= seq![item_addrs(e.items@)]);
}

/// The memories of `mems` up to and including position `i` are all 32-bit.
pub open spec fn all_i32_through(mems: Seq<MemoryType>, i: int) -> bool {
    forall|j: int| 0 <= j <= i ==> (#[trigger] mems[j]).arch is I32
}

/// A memory type that can be allocated here: a 32-bit memory within its
/// limit, whose bytes fit in the address space.
pub open spec fn allocatable(kind: MemoryType) -> bool {
    &&& kind.page_count_initial <= page_limit(kind)
    &&& kind.page_count_initial * PAGE_SIZE <= usize::MAX
}

} // verus!
