use tinywasm::error::{Error, Trap};
use tinywasm::table::{TableElement, TableInstance, WasmRef};
use tinywasm_types::{TableType, ValType};

fn dummy_table_type() -> TableType {
    TableType { element_type: ValType::RefFunc, size_initial: 10, size_max: Some(20) }
}

#[test]
fn test_table_instance_creation() {
    let kind = dummy_table_type();
    let table_instance = TableInstance::new(kind.clone(), 0);
    assert_eq!(table_instance.size(), kind.size_initial as i32, "Table instance creation failed: size mismatch");
}

#[test]
fn test_get_wasm_val() {
    let kind = dummy_table_type();
    let mut table_instance = TableInstance::new(kind, 0);

    table_instance.set(0, 0).expect("Setting table element failed");

    match table_instance.get_wasm_val(0) {
        Ok(WasmRef::RefFunc(_)) => {}
        _ => panic!("get_wasm_val failed to return the correct WasmValue"),
    }

    match table_instance.get_wasm_val(999) {
        Err(Error::Trap(Trap::UndefinedElement { .. })) => {}
        _ => panic!("get_wasm_val failed to handle undefined element correctly"),
    }
}

#[test]
fn test_set_and_get() {
    let kind = dummy_table_type();
    let mut table_instance = TableInstance::new(kind, 0);

    let result = table_instance.set(0, 1);
    assert!(result.is_ok(), "Setting table element failed");

    let elem = table_instance.get(0);
    assert!(
        elem.is_ok() && matches!(elem.unwrap(), TableElement::Initialized(1)),
        "Getting table element failed or returned incorrect value"
    );
}

#[test]
fn test_table_grow_and_fit() {
    let kind = dummy_table_type();
    let mut table_instance = TableInstance::new(kind, 0);

    let result = table_instance.set(15, 1);
    assert!(result.is_ok(), "Table grow on set failed");

    let size = table_instance.size();
    assert!(size >= 16, "Table did not grow to expected size");
}

#[test]
fn test_table_init() {
    let kind = dummy_table_type();
    let mut table_instance = TableInstance::new(kind, 0);

    let init_elements = vec![TableElement::Initialized(0); 5];
    let func_addrs = vec![0, 1, 2, 3, 4];
    let result = table_instance.init(&func_addrs, 0, &init_elements);

    assert!(result.is_ok(), "Initializing table with elements failed");

    for i in 0..5 {
        let elem = table_instance.get(i);
        assert!(
            elem.is_ok() && matches!(elem.unwrap(), TableElement::Initialized(_)),
            "Element not initialized correctly at index {}",
            i
        );
    }
}

#[test]
fn table_auto_grow_scenario() {
    let mut t = TableInstance::new(dummy_table_type(), 0);
    assert_eq!(t.set(15, 7), Ok(()));
    assert_eq!(t.size(), 16);
    assert_eq!(t.get(15), Ok(TableElement::Initialized(7)));
    assert_eq!(t.get(14), Ok(TableElement::Uninitialized));
    assert_eq!(t.get(10), Ok(TableElement::Uninitialized));
    // past the new length: no slot there
    assert_eq!(t.get(17), Err(Error::Trap(Trap::UndefinedElement { index: 17 })));
    assert_eq!(t.set(25, 0), Err(Error::Trap(Trap::TableOutOfBounds { offset: 25, len: 1, max: 16 })));
    assert_eq!(t.size(), 16);
}

#[test]
fn table_set_then_get_holds_value() {
    let mut t = TableInstance::new(TableType::new(ValType::RefExtern, 3, None), 0);
    assert_eq!(t.set(2, 99), Ok(()));
    assert_eq!(t.get(2), Ok(TableElement::Initialized(99)));
    assert_eq!(t.size(), 3);
    assert_eq!(t.set(7, 5), Ok(()));
    assert_eq!(t.get(7), Ok(TableElement::Initialized(5)));
    assert!(t.size() >= 8);
}

#[test]
fn table_get_past_size_is_undefined() {
    let t = TableInstance::new(TableType::new(ValType::RefFunc, 4, Some(8)), 0);
    assert_eq!(t.get(4), Err(Error::Trap(Trap::UndefinedElement { index: 4 })));
    assert_eq!(t.get(u32::MAX), Err(Error::Trap(Trap::UndefinedElement { index: u32::MAX as usize })));
}

#[test]
fn table_set_at_declared_maximum_fails() {
    let mut t = TableInstance::new(dummy_table_type(), 0);
    assert_eq!(t.set(19, 1), Ok(()));
    assert_eq!(t.size(), 20);
    assert_eq!(t.set(20, 1), Err(Error::Trap(Trap::TableOutOfBounds { offset: 20, len: 1, max: 20 })));
}

#[test]
fn table_grow_to_fit_exact() {
    let mut t = TableInstance::new(dummy_table_type(), 0);
    assert_eq!(t.grow_to_fit(5), Ok(()));
    assert_eq!(t.size(), 10);
    assert_eq!(t.grow_to_fit(12), Ok(()));
    assert_eq!(t.size(), 12);
    assert_eq!(t.grow_to_fit(21), Err(Error::Trap(Trap::TableOutOfBounds { offset: 21, len: 1, max: 12 })));
    assert_eq!(t.size(), 12);
}

#[test]
fn table_get_wasm_val_kinds() {
    let mut t = TableInstance::new(TableType::new(ValType::RefExtern, 2, None), 0);
    assert_eq!(t.get_wasm_val(0), Ok(WasmRef::RefNull(ValType::RefExtern)));
    t.set(1, 4).unwrap();
    assert_eq!(t.get_wasm_val(1), Ok(WasmRef::RefExtern(4)));
    let f = TableInstance::new(TableType::new(ValType::RefFunc, 1, None), 0);
    assert_eq!(f.get_wasm_val(0), Ok(WasmRef::RefNull(ValType::RefFunc)));
    let n = TableInstance::new(TableType::new(ValType::I32, 1, None), 0);
    assert!(matches!(n.get_wasm_val(0), Err(Error::UnsupportedFeature(_))));
}

#[test]
fn table_init_remaps_and_bounds() {
    let mut t = TableInstance::new(TableType::new(ValType::RefFunc, 4, None), 0);
    let init = vec![TableElement::Initialized(2), TableElement::Uninitialized, TableElement::Initialized(0)];
    assert_eq!(t.init(&[50, 51, 52], 1, &init), Ok(()));
    assert_eq!(t.get(0), Ok(TableElement::Uninitialized));
    assert_eq!(t.get(1), Ok(TableElement::Initialized(52)));
    assert_eq!(t.get(2), Ok(TableElement::Uninitialized));
    assert_eq!(t.get(3), Ok(TableElement::Initialized(50)));
    assert_eq!(
        t.init(&[50, 51, 52], 2, &init),
        Err(Error::Trap(Trap::TableOutOfBounds { offset: 2, len: 3, max: 4 }))
    );
    assert_eq!(
        t.init(&[50], -1, &init),
        Err(Error::Other("function not found for table initialisation".to_string()))
    );
    assert_eq!(
        t.init_raw(-1, &[TableElement::Uninitialized]),
        Err(Error::Trap(Trap::TableOutOfBounds { offset: 4294967295, len: 1, max: 4 }))
    );
    // an externref table keeps its values as they are
    let mut e = TableInstance::new(TableType::new(ValType::RefExtern, 2, None), 0);
    assert_eq!(e.init(&[], 0, &[TableElement::Initialized(9)]), Ok(()));
    assert_eq!(e.get(0), Ok(TableElement::Initialized(9)));
}

#[test]
fn table_element_conversions() {
    assert_eq!(TableElement::from(Some(3)), TableElement::Initialized(3));
    assert_eq!(TableElement::from(None), TableElement::Uninitialized);
    assert_eq!(TableElement::Initialized(3).addr(), Some(3));
    assert_eq!(TableElement::Uninitialized.addr(), None);
}
