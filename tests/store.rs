use tinywasm::blocks::{BlockFrame, BlockFrameType, Blocks};
use tinywasm::error::{Error, ErrorKind, Trap};
use tinywasm::store::{Function, ModuleInstance, Store};
use tinywasm::table::TableElement;
use tinywasm::types::{ConstInstruction, Data, DataKind, Element, ElementItem, ElementKind, Global, RawWasmValue};
use tinywasm_types::{BlockArgs, FuncType, GlobalType, MemoryArch, MemoryType, TableType, ValType, WasmFunction};

fn body() -> WasmFunction {
    WasmFunction { instructions: Box::new([]), locals: Box::new([]), ty: FuncType::empty() }
}

fn funcs(n: usize) -> Vec<(u32, WasmFunction)> {
    (0..n).map(|i| (i as u32, body())).collect()
}

fn i32_global(init: ConstInstruction) -> Global {
    Global { ty: GlobalType { mutable: false, ty: ValType::I32 }, init }
}

#[test]
fn store_addresses_are_contiguous() {
    let mut s = Store::new(7);
    assert_eq!(s.id(), 7);
    assert_eq!(s.init_funcs(funcs(3), 0).unwrap(), vec![0, 1, 2]);
    assert_eq!(s.init_funcs(funcs(2), 0).unwrap(), vec![3, 4]);
    assert_eq!(s.init_funcs(Vec::new(), 0).unwrap(), Vec::<u32>::new());
    assert_eq!(s.add_func(Function::Host(0), 1, 0).unwrap(), 5);
    let tables = vec![TableType::new(ValType::RefFunc, 1, None), TableType::new(ValType::RefExtern, 0, None)];
    assert_eq!(s.init_tables(tables, 0).unwrap(), vec![0, 1]);
    assert_eq!(s.add_table(TableType::new(ValType::RefFunc, 0, None), 0).unwrap(), 2);
    assert_eq!(s.init_mems(vec![MemoryType::new_32(0, None)], 0).unwrap(), vec![0]);
    assert_eq!(s.add_mem(MemoryType::new_32(1, None), 0).unwrap(), 1);
    assert_eq!(s.init_globals(vec![i32_global(ConstInstruction::I32Const(1))], 0).unwrap(), vec![0]);
    assert_eq!(
        s.add_global(GlobalType { mutable: true, ty: ValType::I64 }, RawWasmValue(5), 0).unwrap(),
        1
    );
}

#[test]
fn store_global_evaluation() {
    let mut s = Store::new(0);
    assert_eq!(s.init_globals(vec![i32_global(ConstInstruction::I32Const(42))], 0).unwrap(), vec![0]);
    assert_eq!(s.get_global_val(0), Ok(RawWasmValue(42)));
    assert_eq!(s.init_globals(vec![i32_global(ConstInstruction::GlobalGet(0))], 0).unwrap(), vec![1]);
    assert_eq!(s.get_global_val(1), Ok(RawWasmValue(42)));
    assert!(matches!(s.get_global_val(2), Err(Error::Other(_))));
}

#[test]
fn store_const_values() {
    let mut s = Store::new(0);
    s.init_globals(vec![i32_global(ConstInstruction::I32Const(-1))], 0).unwrap();
    assert_eq!(s.eval_const(&ConstInstruction::I32Const(-1)), Ok(RawWasmValue(0xffff_ffff)));
    assert_eq!(s.eval_const(&ConstInstruction::I64Const(-1)), Ok(RawWasmValue(u64::MAX)));
    assert_eq!(s.eval_const(&ConstInstruction::F32Const(1.5f32.to_bits())), Ok(RawWasmValue(0x3fc0_0000)));
    assert_eq!(s.eval_const(&ConstInstruction::F64Const(2.0f64.to_bits())), Ok(RawWasmValue(0x4000_0000_0000_0000)));
    assert_eq!(s.eval_const(&ConstInstruction::RefFunc(9)), Ok(RawWasmValue(9)));
    assert_eq!(s.eval_const(&ConstInstruction::RefNull(ValType::RefFunc)), Ok(RawWasmValue(u64::MAX)));
    assert_eq!(s.eval_const(&ConstInstruction::GlobalGet(0)), Ok(RawWasmValue(0xffff_ffff)));
    assert!(matches!(s.eval_const(&ConstInstruction::GlobalGet(1)), Err(Error::Other(_))));
    assert_eq!(s.eval_i32_const(&ConstInstruction::GlobalGet(0)), Ok(-1));
    assert_eq!(s.eval_i32_const(&ConstInstruction::I32Const(12)), Ok(12));
    assert_eq!(s.eval_i32_const(&ConstInstruction::I64Const(12)), Err(Error::Other("expected i32".to_string())));
    assert!(matches!(s.eval_i32_const(&ConstInstruction::GlobalGet(5)), Err(Error::Other(_))));
}

#[test]
fn store_failed_global_keeps_earlier() {
    let mut s = Store::new(0);
    let r = s.init_globals(
        vec![
            i32_global(ConstInstruction::I32Const(3)),
            i32_global(ConstInstruction::GlobalGet(4)),
            i32_global(ConstInstruction::I32Const(5)),
        ],
        0,
    );
    assert!(matches!(r, Err(Error::Other(_))));
    assert_eq!(s.get_global_val(0), Ok(RawWasmValue(3)));
    assert!(s.get_global_val(1).is_err());
}

#[test]
fn store_set_global_val() {
    let mut s = Store::new(0);
    s.init_globals(vec![i32_global(ConstInstruction::I32Const(1))], 0).unwrap();
    assert_eq!(s.set_global_val(0, RawWasmValue(8)), Ok(()));
    assert_eq!(s.get_global_val(0), Ok(RawWasmValue(8)));
    assert!(matches!(s.set_global_val(3, RawWasmValue(8)), Err(Error::Other(_))));
}

#[test]
fn store_element_init_remap() {
    let mut s = Store::new(0);
    s.init_funcs(funcs(100), 0).unwrap();
    let func_addrs = s.init_funcs(funcs(3), 1).unwrap();
    assert_eq!(func_addrs, vec![100, 101, 102]);
    let table_addrs = s.init_tables(vec![TableType::new(ValType::RefFunc, 2, None)], 1).unwrap();
    let elems = vec![Element {
        kind: ElementKind::Active { table: 0, offset: ConstInstruction::I32Const(0) },
        items: vec![ElementItem::Expr(ConstInstruction::RefFunc(0)), ElementItem::Func(2)],
        ty: ValType::RefFunc,
    }];
    assert_eq!(s.init_elems(&table_addrs, &func_addrs, elems, 1).unwrap(), vec![0]);
    let t = s.get_table(table_addrs[0] as usize).unwrap();
    assert_eq!(t.get(0), Ok(TableElement::Initialized(100)));
    assert_eq!(t.get(1), Ok(TableElement::Initialized(102)));
    assert_eq!(s.get_elem(0).unwrap().items, None);
}

#[test]
fn store_passive_element_round_trip() {
    let mut s = Store::new(0);
    let elems = vec![
        Element {
            kind: ElementKind::Passive,
            items: vec![ElementItem::Func(4), ElementItem::Expr(ConstInstruction::RefFunc(1)), ElementItem::Func(4)],
            ty: ValType::RefFunc,
        },
        Element { kind: ElementKind::Declared, items: vec![ElementItem::Func(0)], ty: ValType::RefFunc },
    ];
    assert_eq!(s.init_elems(&[], &[], elems, 0).unwrap(), vec![0, 1]);
    assert_eq!(s.get_elem(0).unwrap().items, Some(vec![4, 1, 4]));
    assert_eq!(s.get_elem(1).unwrap().items, None);
    assert!(matches!(s.get_elem(2), Err(Error::Other(_))));
}

#[test]
fn store_element_errors() {
    let mut s = Store::new(0);
    let table_addrs = s.init_tables(vec![TableType::new(ValType::RefFunc, 1, None)], 0).unwrap();
    let bad_item = vec![Element {
        kind: ElementKind::Passive,
        items: vec![ElementItem::Expr(ConstInstruction::I32Const(1))],
        ty: ValType::RefFunc,
    }];
    assert!(matches!(s.init_elems(&table_addrs, &[], bad_item, 0), Err(Error::UnsupportedFeature(_))));
    let missing_table = vec![Element {
        kind: ElementKind::Active { table: 3, offset: ConstInstruction::I32Const(0) },
        items: vec![],
        ty: ValType::RefFunc,
    }];
    assert!(matches!(s.init_elems(&table_addrs, &[], missing_table, 0), Err(Error::Other(_))));
    let too_long = vec![
        Element { kind: ElementKind::Passive, items: vec![ElementItem::Func(0)], ty: ValType::RefFunc },
        Element {
            kind: ElementKind::Active { table: 0, offset: ConstInstruction::I32Const(0) },
            items: vec![ElementItem::Func(0), ElementItem::Func(0)],
            ty: ValType::RefFunc,
        },
    ];
    let r = s.init_elems(&table_addrs, &[8], too_long, 0);
    assert_eq!(r.unwrap_err().kind(), ErrorKind::Trap(Trap::TableOutOfBounds { offset: 0, len: 2, max: 1 }));
    // the passive segment before the failing one stays
    assert_eq!(s.get_elem(0).unwrap().items, Some(vec![0]));
    assert!(s.get_elem(1).is_err());
    assert_eq!(s.get_table(0).unwrap().get(0), Ok(TableElement::Uninitialized));
}

#[test]
fn store_active_data_out_of_bounds() {
    let mut s = Store::new(0);
    let mem_addrs = s.init_mems(vec![MemoryType::new_32(1, None)], 0).unwrap();
    let datas = vec![Data { data: vec![1; 10], kind: DataKind::Active { mem: 0, offset: ConstInstruction::I32Const(65_530) } }];
    assert_eq!(
        s.init_datas(&mem_addrs, datas, 0),
        Err(Error::Trap(Trap::MemoryOutOfBounds { offset: 65_530, len: 10, max: 65_536 }))
    );
    let m = s.get_mem(0).unwrap();
    assert_eq!(m.load(65_530, 0, 6).unwrap(), &[0, 0, 0, 0, 0, 0]);
}

#[test]
fn store_data_segments() {
    let mut s = Store::new(0);
    let mem_addrs = s.init_mems(vec![MemoryType::new_32(1, None)], 0).unwrap();
    let datas = vec![
        Data { data: vec![1, 2, 3], kind: DataKind::Active { mem: 0, offset: ConstInstruction::I32Const(4) } },
        Data { data: vec![9, 9], kind: DataKind::Passive },
        Data { data: vec![5], kind: DataKind::Active { mem: 0, offset: ConstInstruction::I32Const(0) } },
        Data { data: vec![7], kind: DataKind::Passive },
    ];
    assert_eq!(s.init_datas(&mem_addrs, datas, 3).unwrap(), vec![0, 1]);
    assert_eq!(s.get_mem(0).unwrap().load(0, 0, 7).unwrap(), &[5, 0, 0, 0, 1, 2, 3]);
    assert_eq!(s.get_data(0).unwrap().data, Some(vec![9, 9]));
    assert_eq!(s.get_data(1).unwrap().data, Some(vec![7]));
    assert_eq!(s.get_data(1).unwrap().owner, 3);
}

#[test]
fn store_data_for_nonzero_memory_is_unsupported() {
    let mut s = Store::new(0);
    let mem_addrs = s.init_mems(vec![MemoryType::new_32(1, None), MemoryType::new_32(1, None)], 0).unwrap();
    let datas = vec![
        Data { data: vec![1], kind: DataKind::Active { mem: 0, offset: ConstInstruction::I32Const(0) } },
        Data { data: vec![2], kind: DataKind::Active { mem: 1, offset: ConstInstruction::I32Const(1) } },
    ];
    let r = s.init_datas(&mem_addrs, datas, 0);
    assert!(matches!(r, Err(Error::UnsupportedFeature(_))));
    assert_eq!(s.get_mem(0).unwrap().load(0, 0, 2).unwrap(), &[1, 0]);
    assert_eq!(s.get_mem(1).unwrap().load(0, 0, 2).unwrap(), &[0, 0]);
}

#[test]
fn store_data_without_memory_is_other() {
    let mut s = Store::new(0);
    let datas = vec![Data { data: vec![1], kind: DataKind::Active { mem: 0, offset: ConstInstruction::I32Const(0) } }];
    assert!(matches!(s.init_datas(&[], datas, 0), Err(Error::Other(_))));
}

#[test]
fn store_rejects_64_bit_memory() {
    let mut s = Store::new(0);
    let m64 = MemoryType { arch: MemoryArch::I64, page_count_initial: 1, page_count_max: None };
    let r = s.init_mems(vec![MemoryType::new_32(1, None), m64, MemoryType::new_32(1, None)], 0);
    assert!(matches!(r, Err(Error::UnsupportedFeature(_))));
    assert!(s.get_mem(0).is_ok());
    assert!(s.get_mem(1).is_err());
    assert!(matches!(s.add_mem(m64, 0), Err(Error::UnsupportedFeature(_))));
}

#[test]
fn store_rejects_oversized_table() {
    let mut s = Store::new(0);
    let r = s.init_tables(vec![TableType::new(ValType::RefFunc, 10_000_001, None)], 0);
    assert_eq!(r, Err(Error::Trap(Trap::TableOutOfBounds { offset: 0, len: 10_000_001, max: 10_000_000 })));
    assert!(s.get_table(0).is_err());
}

#[test]
fn store_lookups_and_functions() {
    let mut s = Store::new(0);
    s.init_funcs(funcs(1), 2).unwrap();
    s.add_func(Function::Host(3), 0, 2).unwrap();
    let f = s.get_func(0).unwrap();
    assert_eq!(f.owner, 2);
    assert!(f.assert_wasm().is_ok());
    assert!(matches!(s.get_func(1).unwrap().assert_wasm(), Err(Error::Other(_))));
    assert!(matches!(s.get_func(2), Err(Error::Other(_))));
    assert!(matches!(s.get_mem(0), Err(Error::Other(_))));
    assert!(matches!(s.get_table(0), Err(Error::Other(_))));
}

#[test]
fn store_mutable_handles() {
    let mut s = Store::new(0);
    s.init_mems(vec![MemoryType::new_32(1, Some(2))], 0).unwrap();
    s.init_tables(vec![TableType::new(ValType::RefFunc, 1, Some(4))], 0).unwrap();
    assert_eq!(s.get_mem_mut(0).grow(1), Some(1));
    assert_eq!(s.get_mem(0).unwrap().size(), 2);
    s.get_table_mut(0).set(3, 11).unwrap();
    assert_eq!(s.get_table(0).unwrap().get(3), Ok(TableElement::Initialized(11)));
}

#[test]
fn store_module_instances() {
    let mut s = Store::new(0);
    assert_eq!(s.next_module_instance_idx(), 0);
    let inst = ModuleInstance {
        id: 0,
        func_addrs: vec![],
        table_addrs: vec![],
        mem_addrs: vec![],
        global_addrs: vec![],
        elem_addrs: vec![],
        data_addrs: vec![],
    };
    assert_eq!(s.add_instance(inst), Ok(()));
    assert_eq!(s.next_module_instance_idx(), 1);
    assert_eq!(s.get_module_instance(0).unwrap().id(), 0);
    assert!(s.get_module_instance(1).is_none());
}

#[test]
fn block_stack() {
    let mut b = Blocks::new();
    assert!(b.get(0).is_none());
    for i in 0..3 {
        b.push(BlockFrame { instr_ptr: i, stack_ptr: i * 2, args: BlockArgs::Empty, ty: BlockFrameType::Block });
    }
    assert_eq!(b.get(0).unwrap().instr_ptr, 2);
    assert_eq!(b.get(2).unwrap().instr_ptr, 0);
    assert!(b.get(3).is_none());
    b.trim(0);
    assert_eq!(b.get(0).unwrap().instr_ptr, 0);
    assert_eq!(b.pop().unwrap().stack_ptr, 0);
    assert!(b.pop().is_none());
}

#[test]
fn raw_value_conversions() {
    assert_eq!(RawWasmValue::from_i32(-2).0, 0xffff_fffe);
    assert_eq!(RawWasmValue::from_i64(-2).0, u64::MAX - 1);
    assert_eq!(RawWasmValue(0x1_0000_0007).to_i32(), 7);
    assert_eq!(RawWasmValue(0xffff_ffff).to_i32(), -1);
}

#[test]
fn store_error_messages() {
    let mut s = Store::new(0);
    let m64 = MemoryType { arch: MemoryArch::I64, page_count_initial: 1, page_count_max: None };
    assert_eq!(s.init_mems(vec![m64], 0), Err(Error::UnsupportedFeature("64-bit memories".to_string())));
    assert_eq!(s.add_mem(m64, 0), Err(Error::UnsupportedFeature("64-bit memories".to_string())));
    s.add_func(Function::Host(1), 0, 0).unwrap();
    assert_eq!(s.get_func(0).unwrap().assert_wasm().unwrap_err(), Error::Other("expected wasm function".to_string()));
    let table_addrs = s.init_tables(vec![TableType::new(ValType::RefFunc, 1, None)], 0).unwrap();
    let bad_offset = vec![Element {
        kind: ElementKind::Active { table: 0, offset: ConstInstruction::I64Const(0) },
        items: vec![],
        ty: ValType::RefFunc,
    }];
    assert_eq!(s.init_elems(&table_addrs, &[], bad_offset, 0), Err(Error::Other("expected i32".to_string())));
    let mem_addrs = s.init_mems(vec![MemoryType::new_32(1, None)], 0).unwrap();
    let bad_data = vec![Data { data: vec![1], kind: DataKind::Active { mem: 0, offset: ConstInstruction::RefFunc(0) } }];
    assert_eq!(s.init_datas(&mem_addrs, bad_data, 0), Err(Error::Other("expected i32".to_string())));
    let missing_global = vec![Data { data: vec![1], kind: DataKind::Active { mem: 0, offset: ConstInstruction::GlobalGet(3) } }];
    assert_eq!(s.init_datas(&mem_addrs, missing_global, 0), Err(Error::Other("global not found".to_string())));
}

#[test]
fn store_init_mems_allocates_before_64_bit() {
    let mut s = Store::new(0);
    let m64 = MemoryType { arch: MemoryArch::I64, page_count_initial: 1, page_count_max: None };
    // the memory after the 64-bit one is never reached
    let unreachable = MemoryType::new_32(5, Some(2));
    let r = s.init_mems(vec![MemoryType::new_32(1, None), m64, unreachable], 0);
    assert_eq!(r, Err(Error::UnsupportedFeature("64-bit memories".to_string())));
    assert_eq!(s.get_mem(0).unwrap().size(), 1);
    assert!(s.get_mem(1).is_err());
}

#[test]
fn store_equality_is_by_id() {
    let a = Store::new(1);
    let mut b = Store::new(1);
    let c = Store::new(2);
    b.init_funcs(funcs(1), 0).unwrap();
    assert!(a == b);
    assert!(a != c);
}
