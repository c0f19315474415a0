use vstd::prelude::*;
use tinywasm_types::{FuncAddr, GlobalAddr, GlobalType, MemAddr, TableAddr, ValType};

verus! {

/// Declares `tinywasm_types::ValType`, a field-less enum of the value types;
/// Verus reads its variants.
#[verifier::external_type_specification]
pub struct ExValType(tinywasm_types::ValType);

/// Declares `tinywasm_types::TableType` (element type, initial size,
/// optional maximum); Verus reads its public fields.
#[verifier::external_type_specification]
pub struct ExTableType(tinywasm_types::TableType);

/// Declares `tinywasm_types::MemoryArch` (`I32` or `I64`); Verus reads its variants.
#[verifier::external_type_specification]
pub struct ExMemoryArch(tinywasm_types::MemoryArch);

/// Declares `tinywasm_types::MemoryType` (architecture, initial pages,
/// optional maximum); Verus reads its public fields.
#[verifier::external_type_specification]
pub struct ExMemoryType(tinywasm_types::MemoryType);

/// Declares `tinywasm_types::GlobalType` (mutability, value type); Verus
/// reads its public fields.
#[verifier::external_type_specification]
pub struct ExGlobalType(tinywasm_types::GlobalType);

/// Declares `tinywasm_types::BlockArgs`, the signature of a block; Verus
/// reads its variants.
#[verifier::external_type_specification]
pub struct ExBlockArgs(tinywasm_types::BlockArgs);

/// Declares `tinywasm_types::WasmFunction`, a decoded function body, as an
/// opaque type: the store carries it and never looks inside.
#[verifier::external_type_specification]
#[verifier::external_body]
pub struct ExWasmFunction(tinywasm_types::WasmFunction);

/// An untyped 64-bit cell holding the bit pattern of any Wasm value.
///
/// An `i32` is held as its 32-bit pattern, zero-extended; an `i64` as its
/// 64-bit pattern; a float as its IEEE bits; a function reference as the
/// `i64` of its index; a null reference as all ones.
#[derive(Debug, Clone, Copy, PartialEq, Eq)]
pub struct RawWasmValue(pub u64);

/// The raw cell of a null reference.
pub const REF_NULL_BITS: u64 = 0xffff_ffff_ffff_ffff;

impl RawWasmValue {
    pub fn from_i32(v: i32) -> (r: RawWasmValue)
        ensures
            r.0 == v as u32 as u64,
    {
        RawWasmValue(v as u32 as u64)
    }

    pub fn from_i64(v: i64) -> (r: RawWasmValue)
        ensures
            r.0 == v as u64,
    {
        RawWasmValue(v as u64)
    }

    /// The low 32 bits, read as an `i32`.
    pub fn to_i32(&self) -> (r: i32)
        ensures
            r == self.0 as u32 as i32,
    {
        self.0 as u32 as i32
    }
}

/// An `i32` offset read as the unsigned 32-bit number Wasm takes it for.
pub open spec fn unsigned(v: i32) -> nat {
    if v >= 0 {
        v as nat
    } else {
        (v + 0x1_0000_0000) as nat
    }
}

/// The unsigned value of an `i32` offset.
pub fn unsigned_offset(v: i32) -> (r: usize)
    ensures
        r == unsigned(v),
{
    if v >= 0 {
        v as usize
    } else {
        (v as i64 + 0x1_0000_0000i64) as usize
    }
}

/// A constant expression of the Wasm MVP.
///
/// Float constants are given by their IEEE bit patterns.
#[derive(Debug, Clone, Copy, PartialEq)]
pub enum ConstInstruction {
    I32Const(i32),
    I64Const(i64),
    F32Const(u32),
    F64Const(u64),
    GlobalGet(GlobalAddr),
    RefNull(ValType),
    RefFunc(FuncAddr),
}

/// A global of a module: its type and its initialiser.
#[derive(Debug)]
pub struct Global {
    pub ty: GlobalType,
    pub init: ConstInstruction,
}

/// One item of an element segment.
#[derive(Debug, Clone)]
pub enum ElementItem {
    Func(FuncAddr),
    Expr(ConstInstruction),
}

/// The function index an item refers to, if it is a function reference.
pub open spec fn item_func(item: ElementItem) -> Option<FuncAddr> {
    match item {
        ElementItem::Func(a) => Some(a),
        ElementItem::Expr(ConstInstruction::RefFunc(a)) => Some(a),
        _ => None,
    }
}

impl ElementItem {
    pub fn addr(&self) -> (r: Option<FuncAddr>)
        ensures
            r == item_func(*self),
    {
        match self {
            ElementItem::Func(a) => Some(*a),
            ElementItem::Expr(ConstInstruction::RefFunc(a)) => Some(*a),
            _ => None,
        }
    }
}

/// How an element segment is used at instantiation.
#[derive(Debug, Clone, PartialEq)]
pub enum ElementKind {
    Passive,
    Active { table: TableAddr, offset: ConstInstruction },
    Declared,
}

/// An element segment of a module.
#[derive(Debug)]
pub struct Element {
    pub kind: ElementKind,
    pub items: Vec<ElementItem>,
    pub ty: ValType,
}

/// How a data segment is used at instantiation.
#[derive(Debug, Clone)]
pub enum DataKind {
    Active { mem: MemAddr, offset: ConstInstruction },
    Passive,
}

/// A data segment of a module.
#[derive(Debug, Clone)]
pub struct Data {
    pub data: Vec<u8>,
    pub kind: DataKind,
}

} // verus!
