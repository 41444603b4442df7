//! Value, reference, limit and section types of the WebAssembly core specification.
use vstd::prelude::*;

verus! {

/// Number types (https://webassembly.github.io/spec/core/syntax/types.html#number-types).
#[derive(Debug, Clone, Copy, PartialEq, Eq, Hash, Structural)]
pub enum NumType {
    I32,
    I64,
    F32,
    F64,
}

/// Reference types (https://webassembly.github.io/spec/core/syntax/types.html#reference-types).
#[derive(Debug, Clone, Copy, PartialEq, Eq, Hash, Structural)]
pub enum RefType {
    FunctionReference,
    ExternReference,
}

/// Value types (https://webassembly.github.io/spec/core/syntax/types.html#value-types).
#[derive(Debug, Clone, Copy, PartialEq, Eq, Hash, Structural)]
pub enum ValType {
    Number(NumType),
    Reference(RefType),
    /// https://webassembly.github.io/spec/core/syntax/types.html#vector-types
    VecType,
}

impl Default for NumType {
    fn default() -> (r: Self)
        ensures
            r == NumType::I32,
    {
        NumType::I32
    }
}

impl Default for RefType {
    fn default() -> (r: Self)
        ensures
            r == RefType::FunctionReference,
    {
        RefType::FunctionReference
    }
}

impl Default for ValType {
    fn default() -> (r: Self)
        ensures
            r == ValType::VecType,
    {
        ValType::VecType
    }
}

/// The binary encoding byte of a value type.
pub open spec fn valtype_byte(t: ValType) -> u8 {
    match t {
        ValType::Number(NumType::I32) => 0x7F,
        ValType::Number(NumType::I64) => 0x7E,
        ValType::Number(NumType::F32) => 0x7D,
        ValType::Number(NumType::F64) => 0x7C,
        ValType::VecType => 0x7B,
        ValType::Reference(RefType::FunctionReference) => 0x70,
        ValType::Reference(RefType::ExternReference) => 0x6F,
    }
}

/// Whether `byte` is the binary encoding of some value type.
pub open spec fn is_valtype_byte_spec(byte: u8) -> bool {
    byte == 0x7F || byte == 0x7E || byte == 0x7D || byte == 0x7C || byte == 0x7B || byte == 0x70
        || byte == 0x6F
}

impl ValType {
    #[inline]
    pub fn i32() -> (r: Self)
        ensures
            r == ValType::Number(NumType::I32),
    {
        ValType::Number(NumType::I32)
    }

    #[inline]
    pub fn i64() -> (r: Self)
        ensures
            r == ValType::Number(NumType::I64),
    {
        ValType::Number(NumType::I64)
    }

    #[inline]
    pub fn float32() -> (r: Self)
        ensures
            r == ValType::Number(NumType::F32),
    {
        ValType::Number(NumType::F32)
    }

    #[inline]
    pub fn float64() -> (r: Self)
        ensures
            r == ValType::Number(NumType::F64),
    {
        ValType::Number(NumType::F64)
    }

    #[inline]
    pub fn funcref() -> (r: Self)
        ensures
            r == ValType::Reference(RefType::FunctionReference),
    {
        ValType::Reference(RefType::FunctionReference)
    }

    #[inline]
    pub fn externref() -> (r: Self)
        ensures
            r == ValType::Reference(RefType::ExternReference),
    {
        ValType::Reference(RefType::ExternReference)
    }

    #[inline]
    pub fn vec() -> (r: Self)
        ensures
            r == ValType::VecType,
    {
        ValType::VecType
    }

    /// Whether `byte` encodes a value type in the binary format.
    pub fn is_valtype_byte(byte: u8) -> (r: bool)
        ensures
            r == is_valtype_byte_spec(byte),
    {
        byte == 0x7F || byte == 0x7E || byte == 0x7D || byte == 0x7C || byte == 0x7B || byte
            == 0x70 || byte == 0x6F
    }

    /// The printable name of the type (`i32`, `funcref`, `vec`, ...).
    pub fn name(&self) -> (r: &'static str)
        ensures
            r@ == valtype_name(*self)@,
    {
        match self {
            ValType::Number(NumType::I32) => "i32",
            ValType::Number(NumType::I64) => "i64",
            ValType::Number(NumType::F32) => "f32",
            ValType::Number(NumType::F64) => "f64",
            ValType::Reference(RefType::FunctionReference) => "funcref",
            ValType::Reference(RefType::ExternReference) => "externref",
            ValType::VecType => "vec",
        }
    }
}

/// The printable name of a value type.
pub open spec fn valtype_name(t: ValType) -> &'static str {
    match t {
        ValType::Number(NumType::I32) => "i32",
        ValType::Number(NumType::I64) => "i64",
        ValType::Number(NumType::F32) => "f32",
        ValType::Number(NumType::F64) => "f64",
        ValType::Reference(RefType::FunctionReference) => "funcref",
        ValType::Reference(RefType::ExternReference) => "externref",
        ValType::VecType => "vec",
    }
}

/// Size limits of memories and tables.
#[derive(Debug, Clone, Copy, PartialEq, Eq, Structural)]
pub struct Limits {
    pub min: u32,
    pub max: Option<u32>,
}

pub type TypeIdx = u32;

pub type FuncIdx = u32;

pub type TableIdx = u32;

pub type MemIdx = u32;

pub type GlobalIdx = u32;

pub type ElemIdx = u32;

pub type DataIdx = u32;

pub type LocalIdx = u32;

pub type LabelIdx = u32;

pub type MemType = Limits;

pub type Name = String;

/// Table type: element reference type and size limits.
#[derive(Debug, Clone, Copy, PartialEq, Eq, Structural)]
pub struct TableType {
    pub ref_type: RefType,
    pub lim: Limits,
}

/// Global type: mutability and value type.
#[derive(Debug, Clone, Copy, PartialEq, Eq, Structural)]
pub enum GlobalType {
    Mut(ValType),
    Const(ValType),
}

impl GlobalType {
    /// The value type of the global, whatever its mutability.
    pub fn val_type(&self) -> (r: ValType)
        ensures
            r == global_val_type(*self),
    {
        match self {
            GlobalType::Mut(t) => *t,
            GlobalType::Const(t) => *t,
        }
    }
}

pub open spec fn global_val_type(g: GlobalType) -> ValType {
    match g {
        GlobalType::Mut(t) => t,
        GlobalType::Const(t) => t,
    }
}

/// Block types of structured control instructions.
#[derive(Debug, Clone, Copy, PartialEq, Eq, Structural)]
pub enum BlockType {
    Empty,
    ShorthandFunc(ValType),
    FunctionSig(TypeIdx),
}

/// The type of an external value.
#[derive(Debug, Clone)]
pub enum ExternType {
    Func(crate::functypes::FuncType),
    Table(TableType),
    Mem(MemType),
    Global(GlobalType),
}

/// Import descriptors.
#[derive(Debug, Clone, Copy)]
pub enum ImportDesc {
    Func(TypeIdx),
    Table(TableType),
    Mem(Limits),
    Global((GlobalType, GlobalIdx)),
}

/// Module sections. Non-custom sections must appear at most once and in the order given by
/// `Section::order`.
#[derive(Debug, Clone, Copy, PartialEq, Eq, Structural)]
pub enum Section {
    Custom,
    Type,
    Import,
    Function,
    Table,
    Memory,
    Global,
    Export,
    Start,
    Element,
    DataCount,
    Code,
    Data,
}

/// Position of a section in the order that the specification prescribes (custom sections: 99).
pub open spec fn section_order(s: Section) -> i32 {
    match s {
        Section::Custom => 99,
        Section::Type => 0,
        Section::Import => 1,
        Section::Function => 2,
        Section::Table => 3,
        Section::Memory => 4,
        Section::Global => 5,
        Section::Export => 6,
        Section::Start => 7,
        Section::Element => 8,
        Section::DataCount => 9,
        Section::Code => 10,
        Section::Data => 11,
    }
}

/// The section that a binary section id stands for.
pub open spec fn section_of_id(id: u8) -> Option<Section> {
    if id == 0 {
        Some(Section::Custom)
    } else if id == 1 {
        Some(Section::Type)
    } else if id == 2 {
        Some(Section::Import)
    } else if id == 3 {
        Some(Section::Function)
    } else if id == 4 {
        Some(Section::Table)
    } else if id == 5 {
        Some(Section::Memory)
    } else if id == 6 {
        Some(Section::Global)
    } else if id == 7 {
        Some(Section::Export)
    } else if id == 8 {
        Some(Section::Start)
    } else if id == 9 {
        Some(Section::Element)
    } else if id == 10 {
        Some(Section::Code)
    } else if id == 11 {
        Some(Section::Data)
    } else if id == 12 {
        Some(Section::DataCount)
    } else {
        None
    }
}

/// The sections other than custom ones, in the order that the WebAssembly specification
/// prescribes for a module.
pub open spec fn prescribed_sections() -> Seq<Section> {
    seq![
        Section::Type,
        Section::Import,
        Section::Function,
        Section::Table,
        Section::Memory,
        Section::Global,
        Section::Export,
        Section::Start,
        Section::Element,
        Section::DataCount,
        Section::Code,
        Section::Data,
    ]
}

/// The binary ids of the sections of `prescribed_sections`, in the same order.
pub open spec fn prescribed_ids() -> Seq<u8> {
    seq![1u8, 2, 3, 4, 5, 6, 7, 8, 9, 12, 10, 11]
}

/// The order of sections is the prescribed one: a section that the specification puts before
/// another has a smaller position, and custom sections rank after every other section.
pub proof fn law_section_order_prescribed(i: int, j: int)
    requires
        0 <= i < j < prescribed_sections().len(),
    ensures
        section_order(prescribed_sections()[i]) < section_order(prescribed_sections()[j]),
        section_order(prescribed_sections()[j]) < section_order(Section::Custom),
{
}

/// Each section id of the binary format stands for the section the specification gives it, id
/// 0 for custom sections, and no other byte is a section id.
pub proof fn law_section_ids(k: int, id: u8)
    requires
        0 <= k < prescribed_ids().len(),
    ensures
        section_of_id(prescribed_ids()[k]) == Some(prescribed_sections()[k]),
        section_of_id(0) == Some(Section::Custom),
        id > 12 ==> section_of_id(id) is None,
{
}

impl Section {
    /// Position of the section in the prescribed module order.
    pub fn order(&self) -> (r: i32)
        ensures
            r == section_order(*self),
    {
        match self {
            Section::Custom => 99,
            Section::Type => 0,
            Section::Import => 1,
            Section::Function => 2,
            Section::Table => 3,
            Section::Memory => 4,
            Section::Global => 5,
            Section::Export => 6,
            Section::Start => 7,
            Section::Element => 8,
            Section::DataCount => 9,
            Section::Code => 10,
            Section::Data => 11,
        }
    }

    /// Decodes a binary section id.
    pub fn from_id(id: u8) -> (r: Option<Section>)
        ensures
            r == section_of_id(id),
    {
        match id {
            0 => Some(Section::Custom),
            1 => Some(Section::Type),
            2 => Some(Section::Import),
            3 => Some(Section::Function),
            4 => Some(Section::Table),
            5 => Some(Section::Memory),
            6 => Some(Section::Global),
            7 => Some(Section::Export),
            8 => Some(Section::Start),
            9 => Some(Section::Element),
            10 => Some(Section::Code),
            11 => Some(Section::Data),
            12 => Some(Section::DataCount),
            _ => None,
        }
    }
}

/// The text of `t` in std's `Debug` form, through `format!`. Nothing is stated of the text.
#[verifier::external_body]
pub(crate) fn val_type_text(t: &ValType) -> String {
    format!("{:?}", t)
}

/// The text of `t` in std's `Debug` form, through `format!`. Nothing is stated of the text.
#[verifier::external_body]
pub(crate) fn ref_type_text(t: &RefType) -> String {
    format!("{:?}", t)
}

} // verus!
