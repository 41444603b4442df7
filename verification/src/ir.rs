//! The intermediate representation that function bodies are parsed into.
use crate::types::{
    BlockType, DataIdx, ElemIdx, FuncIdx, GlobalIdx, LabelIdx, LocalIdx, NumType, RefType, TableIdx,
    TypeIdx, ValType,
};
use vstd::prelude::*;

verus! {

pub type VariableID = usize;

pub type BasicBlockID = u32;

/// The id that stands for a variable that a failed validation step could not provide.
pub const INVALID_VAR: VariableID = 0xFFFF_FFFF;

/// An SSA variable of the IR.
#[derive(Debug, Clone, Copy, PartialEq, Eq, Structural)]
pub struct Variable {
    pub id: VariableID,
    pub type_: ValType,
}

/// Immediate of a memory instruction.
#[derive(Debug, Clone, Copy, PartialEq, Eq, Structural)]
pub struct MemArg {
    pub align: u32,
    pub offset: u32,
}

#[derive(Debug, Clone, Copy, PartialEq, Eq, Structural)]
pub enum LoadOp {
    INNLoad,
    FNNLoad,
    INNLoad8S,
    INNLoad8U,
    INNLoad16S,
    INNLoad16U,
    INNLoad32S,
    INNLoad32U,
}

#[derive(Debug, Clone, Copy, PartialEq, Eq, Structural)]
pub enum StoreOp {
    INNStore,
    FNNStore,
    INNStore8,
    INNStore16,
    INNStore32,
}

#[derive(Debug, Clone, Copy, PartialEq, Eq, Structural)]
pub enum IBinaryOp {
    Add,
    Sub,
    Mul,
    DivS,
    DivU,
    RemS,
    RemU,
    And,
    Or,
    Xor,
    Shl,
    ShrS,
    ShrU,
    Rotl,
    Rotr,
}

#[derive(Debug, Clone, Copy, PartialEq, Eq, Structural)]
pub enum FBinaryOp {
    Add,
    Sub,
    Mul,
    Div,
    Min,
    Max,
    Copysign,
}

#[derive(Debug, Clone, Copy, PartialEq, Eq, Structural)]
pub enum IRelationalOp {
    Eq,
    Ne,
    LtS,
    LtU,
    GtS,
    GtU,
    LeS,
    LeU,
    GeS,
    GeU,
}

#[derive(Debug, Clone, Copy, PartialEq, Eq, Structural)]
pub enum FRelationalOp {
    Eq,
    Ne,
    Lt,
    Gt,
    Le,
    Ge,
}

#[derive(Debug, Clone, Copy, PartialEq, Eq, Structural)]
pub enum IUnaryOp {
    Clz,
    Ctz,
    Popcnt,
}

#[derive(Debug, Clone, Copy, PartialEq, Eq, Structural)]
pub enum FUnaryOp {
    Abs,
    Neg,
    Ceil,
    Floor,
    Trunc,
    Nearest,
    Sqrt,
}

/// An immediate constant; floating-point constants are kept as their IEEE-754 bit patterns.
#[derive(Debug, Clone, Copy, PartialEq, Eq, Structural)]
pub enum ConstImm {
    I32(i32),
    I64(i64),
    F32Bits(u32),
    F64Bits(u64),
}

/// A non-terminating instruction of a basic block.
#[allow(inconsistent_fields)]
#[derive(Debug, Clone, PartialEq, Eq)]
pub enum Instruction {
    Load { memarg: MemArg, out1: VariableID, out1_type: NumType, addr: VariableID, operation: LoadOp },
    Store {
        memarg: MemArg,
        addr_in: VariableID,
        value_in: VariableID,
        in_type: NumType,
        operation: StoreOp,
    },
    MemorySize { out1: VariableID },
    MemoryGrow { in1: VariableID, out1: VariableID },
    MemoryCopy { n: VariableID, s: VariableID, d: VariableID },
    MemoryFill { n: VariableID, val: VariableID, d: VariableID },
    MemoryInit { data_idx: DataIdx, n: VariableID, s: VariableID, d: VariableID },
    DataDrop { data_idx: DataIdx },
    IBinary { types: NumType, op: IBinaryOp, lhs: VariableID, rhs: VariableID, out1: VariableID },
    FBinary { types: NumType, op: FBinaryOp, lhs: VariableID, rhs: VariableID, out1: VariableID },
    IUnary { types: NumType, op: IUnaryOp, in1: VariableID, out1: VariableID },
    FUnary { types: NumType, op: FUnaryOp, in1: VariableID, out1: VariableID },
    ITestZero { input_type: NumType, in1: VariableID, out1: VariableID },
    IRelational {
        input_types: NumType,
        op: IRelationalOp,
        in1: VariableID,
        in2: VariableID,
        out1: VariableID,
    },
    FRelational {
        input_types: NumType,
        op: FRelationalOp,
        in1: VariableID,
        in2: VariableID,
        out1: VariableID,
    },
    Constant { imm: ConstImm, out1: VariableID, out1_type: NumType },
    Wrap { in1: VariableID, out1: VariableID },
    Convert {
        in1: VariableID,
        in1_type: NumType,
        out1: VariableID,
        out1_type: NumType,
        signed: bool,
    },
    Reinterpret { in1: VariableID, in1_type: NumType, out1: VariableID, out1_type: NumType },
    ExtendBits {
        in1: VariableID,
        in1_type: NumType,
        input_size: u8,
        out1: VariableID,
        out1_type: NumType,
    },
    ExtendType { signed: bool, out1: VariableID, in1: VariableID },
    Demote { in1: VariableID, out1: VariableID },
    Promote { in1: VariableID, out1: VariableID },
    Trunc { in1: VariableID, in1_type: NumType, out1: VariableID, out1_type: NumType, signed: bool },
    TruncSaturation {
        in1: VariableID,
        in1_type: NumType,
        out1: VariableID,
        out1_type: NumType,
        signed: bool,
    },
    ReferenceIsNull { in1: VariableID, in1_type: ValType, out1: VariableID },
    ReferenceNull { out1: VariableID, out1_type: RefType },
    ReferenceFunction { out1: VariableID, func_idx: FuncIdx },
    TableSet { table_idx: TableIdx, in1: VariableID, idx: VariableID, input_type: ValType },
    TableGet { table_idx: TableIdx, out1: VariableID, idx: VariableID },
    TableGrow { table_idx: TableIdx, size: VariableID, value_to_fill: VariableID, out1: VariableID },
    TableSize { table_idx: TableIdx, out1: VariableID },
    TableFill { table_idx: TableIdx, i: VariableID, n: VariableID, ref_value: VariableID },
    TableCopy {
        table_idx_x: TableIdx,
        table_idx_y: TableIdx,
        n: VariableID,
        s: VariableID,
        d: VariableID,
    },
    TableInit { table_idx: TableIdx, elem_idx: ElemIdx, n: VariableID, s: VariableID, d: VariableID },
    ElemDrop { elem_idx: ElemIdx },
    LocalGet { out1: VariableID, local_idx: LocalIdx },
    GlobalGet { out1: VariableID, global_idx: GlobalIdx },
    LocalSet { local_idx: LocalIdx, in1: VariableID },
    GlobalSet { global_idx: GlobalIdx, in1: VariableID },
    LocalTee { local_idx: LocalIdx, in1: VariableID, out1: VariableID },
    Select { cond: VariableID, in1: VariableID, in2: VariableID, out1: VariableID },
}

/// A control instruction that ends the instruction sequence of a basic block.
#[derive(Debug, Clone, PartialEq, Eq)]
pub enum ControlInstruction {
    Block(BlockType),
    Loop(BlockType),
    IfElse(BlockType),
    Br(LabelIdx),
    BrIf(LabelIdx),
    BrTable(LabelIdx, Vec<LabelIdx>),
    Unreachable,
    Call(FuncIdx),
    CallIndirect(TypeIdx, TableIdx),
    End,
    Return,
    Else,
    Nop,
}

/// Collects the instructions of one basic block until a control instruction ends it.
#[derive(Debug)]
pub struct InstructionEncoder {
    instrs: Vec<Instruction>,
    terminator: Option<ControlInstruction>,
}

impl InstructionEncoder {
    pub closed spec fn instructions(&self) -> Seq<Instruction> {
        self.instrs@
    }

    pub closed spec fn terminator_spec(&self) -> Option<ControlInstruction> {
        self.terminator
    }

    pub fn new() -> (e: Self)
        ensures
            e.instructions() == Seq::<Instruction>::empty(),
            e.terminator_spec().is_none(),
    {
        InstructionEncoder { instrs: Vec::new(), terminator: None }
    }

    /// Appends an instruction.
    pub fn write(&mut self, instr: Instruction)
        ensures
            final(self).instructions() == old(self).instructions().push(instr),
            final(self).terminator_spec() == old(self).terminator_spec(),
    {
        self.instrs.push(instr);
    }

    /// Ends the block with a control instruction.
    pub fn write_terminator(&mut self, instr: ControlInstruction)
        ensures
            final(self).instructions() == old(self).instructions(),
            final(self).terminator_spec() == Some(instr),
    {
        self.terminator = Some(instr);
    }

    /// Whether a control instruction ended the block.
    pub fn is_finished(&self) -> (r: bool)
        ensures
            r == self.terminator_spec().is_some(),
    {
        self.terminator.is_some()
    }

    /// The control instruction that ended the block (`Nop` while there is none).
    pub fn peek_terminator(&self) -> (r: &ControlInstruction)
        ensures
            self.terminator_spec().is_some() ==> Some(*r) == self.terminator_spec(),
            self.terminator_spec().is_none() ==> *r == ControlInstruction::Nop,
    {
        match &self.terminator {
            Some(t) => t,
            None => &ControlInstruction::Nop,
        }
    }

    /// The instructions, leaving the encoder empty.
    pub fn extract_data(&mut self) -> (v: Vec<Instruction>)
        ensures
            v@ == old(self).instructions(),
            final(self).instructions() == Seq::<Instruction>::empty(),
            final(self).terminator_spec() == old(self).terminator_spec(),
    {
        let mut v = Vec::new();
        std::mem::swap(&mut v, &mut self.instrs);
        v
    }
}

/// An input of a basic block: the variable `out` takes the value of `inputs` from the predecessor.
#[derive(Debug, Clone, PartialEq, Eq)]
pub struct PhiNode {
    pub inputs: Vec<(BasicBlockID, VariableID)>,
    pub out: VariableID,
    pub type_: ValType,
}

/// How a basic block hands control on.
#[derive(Debug, Clone, PartialEq, Eq)]
pub enum BasicBlockGlue {
    Jmp { target: BasicBlockID, output_vars: Vec<VariableID> },
    JmpCond {
        cond_var: VariableID,
        target_if_true: BasicBlockID,
        target_if_false: BasicBlockID,
        output_vars: Vec<VariableID>,
    },
    JmpTable {
        selector_var: VariableID,
        targets: Vec<BasicBlockID>,
        targets_output_vars: Vec<Vec<VariableID>>,
        default_target: BasicBlockID,
        default_output_vars: Vec<VariableID>,
    },
    Call {
        func_idx: FuncIdx,
        return_bb: BasicBlockID,
        call_params: Vec<VariableID>,
        return_vars: Vec<VariableID>,
    },
    CallIndirect {
        type_idx: TypeIdx,
        selector_var: VariableID,
        table_idx: TableIdx,
        return_bb: BasicBlockID,
        call_params: Vec<VariableID>,
        return_vars: Vec<VariableID>,
    },
    Return { return_vars: Vec<VariableID> },
    ElseMarker { output_vars: Vec<VariableID> },
    Unreachable,
}

/// A basic block: its inputs, its instructions and how it ends.
#[derive(Debug, Clone, PartialEq, Eq)]
pub struct BasicBlock {
    pub id: BasicBlockID,
    pub inputs: Vec<PhiNode>,
    pub instructions: Vec<Instruction>,
    pub terminator: BasicBlockGlue,
}

impl BasicBlock {
    pub fn new(id: BasicBlockID) -> (bb: Self)
        ensures
            bb.id == id,
            bb.inputs@ == Seq::<PhiNode>::empty(),
            bb.instructions@ == Seq::<Instruction>::empty(),
            bb.terminator == BasicBlockGlue::Unreachable,
    {
        BasicBlock { id, inputs: Vec::new(), instructions: Vec::new(), terminator: BasicBlockGlue::Unreachable }
    }
}

/// The IR of a parsed function.
#[derive(Debug, Clone, PartialEq, Eq)]
pub struct FunctionIR {
    pub bbs: Vec<BasicBlock>,
    pub num_vars: usize,
    pub locals: Vec<ValType>,
}

impl FunctionIR {
    pub fn new() -> (f: Self)
        ensures
            f.bbs@ == Seq::<BasicBlock>::empty(),
            f.num_vars == 0,
            f.locals@ == Seq::<ValType>::empty(),
    {
        FunctionIR { bbs: Vec::new(), num_vars: 0, locals: Vec::new() }
    }
}

} // verus!
