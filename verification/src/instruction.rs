//! The instruction model: a closed opcode enumeration with an explicit,
//! stable numeric wire byte per member, paired with zero or one operand
//! value. Push and branch instructions carry exactly one operand of the
//! matching variant; every other opcode carries none.

use crate::data::Data;
use crate::dec::Dec;
use vstd::prelude::*;
use vstd::std_specs::cmp::PartialEqSpec;

verus! {

/// The operation an instruction performs.
#[derive(Debug, Clone, Copy, PartialEq, Eq, Structural)]
pub enum OpCode {
    Nop,
    PushInt,
    PushFloat,
    Add,
    Sub,
    Mul,
    Dup,
    Print,
    Exit,
    Panic,
    PrintChar,
    Eq,
    Gr,
    Less,
    Not,
    Jump,
    CJump,
}

/// The wire byte of each opcode. This table is the external format: it must
/// never be reassigned, whatever order the enumeration declares.
pub open spec fn opcode_byte(op: OpCode) -> u8 {
    match op {
        OpCode::Nop => 0,
        OpCode::PushInt => 1,
        OpCode::PushFloat => 2,
        OpCode::Add => 3,
        OpCode::Sub => 4,
        OpCode::Mul => 5,
        OpCode::Dup => 6,
        OpCode::Print => 7,
        OpCode::Exit => 8,
        OpCode::Panic => 9,
        OpCode::PrintChar => 10,
        OpCode::Eq => 11,
        OpCode::Gr => 12,
        OpCode::Less => 13,
        OpCode::Not => 14,
        OpCode::Jump => 15,
        OpCode::CJump => 16,
    }
}

/// The opcode a wire byte denotes, if any.
pub open spec fn byte_opcode(num: u8) -> Option<OpCode> {
    match num {
        0u8 => Some(OpCode::Nop),
        1u8 => Some(OpCode::PushInt),
        2u8 => Some(OpCode::PushFloat),
        3u8 => Some(OpCode::Add),
        4u8 => Some(OpCode::Sub),
        5u8 => Some(OpCode::Mul),
        6u8 => Some(OpCode::Dup),
        7u8 => Some(OpCode::Print),
        8u8 => Some(OpCode::Exit),
        9u8 => Some(OpCode::Panic),
        10u8 => Some(OpCode::PrintChar),
        11u8 => Some(OpCode::Eq),
        12u8 => Some(OpCode::Gr),
        13u8 => Some(OpCode::Less),
        14u8 => Some(OpCode::Not),
        15u8 => Some(OpCode::Jump),
        16u8 => Some(OpCode::CJump),
        _ => None,
    }
}

impl OpCode {
    /// The wire byte of this opcode.
    pub fn as_byte(&self) -> (r: u8)
        ensures
            r == opcode_byte(*self),
    {
        match self {
            OpCode::Nop => 0,
            OpCode::PushInt => 1,
            OpCode::PushFloat => 2,
            OpCode::Add => 3,
            OpCode::Sub => 4,
            OpCode::Mul => 5,
            OpCode::Dup => 6,
            OpCode::Print => 7,
            OpCode::Exit => 8,
            OpCode::Panic => 9,
            OpCode::PrintChar => 10,
            OpCode::Eq => 11,
            OpCode::Gr => 12,
            OpCode::Less => 13,
            OpCode::Not => 14,
            OpCode::Jump => 15,
            OpCode::CJump => 16,
        }
    }

    /// The opcode a wire byte denotes, if any.
    pub fn from_byte(num: u8) -> (r: Option<OpCode>)
        ensures
            r == byte_opcode(num),
    {
        match num {
            0u8 => Some(OpCode::Nop),
            1u8 => Some(OpCode::PushInt),
            2u8 => Some(OpCode::PushFloat),
            3u8 => Some(OpCode::Add),
            4u8 => Some(OpCode::Sub),
            5u8 => Some(OpCode::Mul),
            6u8 => Some(OpCode::Dup),
            7u8 => Some(OpCode::Print),
            8u8 => Some(OpCode::Exit),
            9u8 => Some(OpCode::Panic),
            10u8 => Some(OpCode::PrintChar),
            11u8 => Some(OpCode::Eq),
            12u8 => Some(OpCode::Gr),
            13u8 => Some(OpCode::Less),
            14u8 => Some(OpCode::Not),
            15u8 => Some(OpCode::Jump),
            16u8 => Some(OpCode::CJump),
            _ => None,
        }
    }
}

/// The two byte mappings invert each other.
pub proof fn lemma_opcode_byte_round_trip()
    ensures
        forall|op: OpCode| #[trigger] byte_opcode(opcode_byte(op)) == Some(op),
        forall|num: u8, op: OpCode| byte_opcode(num) == Some(op) ==> opcode_byte(op) == num,
{
}

/// The zero-or-one operand of an instruction.
#[derive(Debug, Clone, Copy)]
pub enum Operands {
    Zero,
    One(Data),
}

/// One instruction: an opcode and its operand.
#[derive(Debug, Clone, Copy)]
pub struct Instruction {
    pub op_code: OpCode,
    pub operands: Operands,
}

impl Instruction {
    /// The operand invariant of the data model: push and branch opcodes
    /// carry one operand of the matching variant, every other opcode none.
    pub open spec fn wf(self) -> bool {
        match self.op_code {
            OpCode::PushInt | OpCode::Jump | OpCode::CJump => self.operands matches Operands::One(
                Data::Int(_),
            ),
            OpCode::PushFloat => self.operands matches Operands::One(Data::Float(d)) && d.wf(),
            _ => self.operands is Zero,
        }
    }

    /// Decide the operand invariant.
    pub fn check_wf(&self) -> (r: bool)
        ensures
            r == self.wf(),
    {
        match self.op_code {
            OpCode::PushInt | OpCode::Jump | OpCode::CJump => match self.operands {
                Operands::One(Data::Int(_)) => true,
                _ => false,
            },
            OpCode::PushFloat => match &self.operands {
                Operands::One(Data::Float(d)) => d.check_wf(),
                _ => false,
            },
            _ => match self.operands {
                Operands::Zero => true,
                _ => false,
            },
        }
    }

    /// Push the integer constant `i`.
    pub fn pushi(i: i64) -> (r: Instruction)
        ensures
            r.op_code == OpCode::PushInt,
            r.operands == Operands::One(Data::Int(i)),
            r.wf(),
    {
        Instruction { op_code: OpCode::PushInt, operands: Operands::One(Data::Int(i)) }
    }

    /// Push the decimal constant `d`.
    pub fn pushf(d: Dec) -> (r: Instruction)
        requires
            d.wf(),
        ensures
            r.op_code == OpCode::PushFloat,
            r.operands == Operands::One(Data::Float(d)),
            r.wf(),
    {
        Instruction { op_code: OpCode::PushFloat, operands: Operands::One(Data::Float(d)) }
    }

    /// Jump to the absolute instruction index `target`.
    pub fn jump(target: i64) -> (r: Instruction)
        ensures
            r.op_code == OpCode::Jump,
            r.operands == Operands::One(Data::Int(target)),
            r.wf(),
    {
        Instruction { op_code: OpCode::Jump, operands: Operands::One(Data::Int(target)) }
    }

    /// Jump to `target` when the top of the stack is a positive integer.
    pub fn cjump(target: i64) -> (r: Instruction)
        ensures
            r.op_code == OpCode::CJump,
            r.operands == Operands::One(Data::Int(target)),
            r.wf(),
    {
        Instruction { op_code: OpCode::CJump, operands: Operands::One(Data::Int(target)) }
    }

    /// An instruction of the given opcode with no operand.
    pub fn bare(op: OpCode) -> (r: Instruction)
        requires
            op != OpCode::PushInt,
            op != OpCode::PushFloat,
            op != OpCode::Jump,
            op != OpCode::CJump,
        ensures
            r.op_code == op,
            r.operands == Operands::Zero,
            r.wf(),
    {
        Instruction { op_code: op, operands: Operands::Zero }
    }

    /// Add the two topmost values.
    pub fn add() -> (r: Instruction)
        ensures
            r.op_code == OpCode::Add && r.operands == Operands::Zero && r.wf(),
    {
        Instruction::bare(OpCode::Add)
    }

    /// Subtract the top value from the one beneath it.
    pub fn sub() -> (r: Instruction)
        ensures
            r.op_code == OpCode::Sub && r.operands == Operands::Zero && r.wf(),
    {
        Instruction::bare(OpCode::Sub)
    }

    /// Multiply the two topmost values.
    pub fn mul() -> (r: Instruction)
        ensures
            r.op_code == OpCode::Mul && r.operands == Operands::Zero && r.wf(),
    {
        Instruction::bare(OpCode::Mul)
    }

    /// Duplicate the top of the stack.
    pub fn dup() -> (r: Instruction)
        ensures
            r.op_code == OpCode::Dup && r.operands == Operands::Zero && r.wf(),
    {
        Instruction::bare(OpCode::Dup)
    }

    /// Pop the top of the stack and write its text to the output.
    pub fn print() -> (r: Instruction)
        ensures
            r.op_code == OpCode::Print && r.operands == Operands::Zero && r.wf(),
    {
        Instruction::bare(OpCode::Print)
    }

    /// Pop an integer and write it as a Unicode character.
    pub fn printch() -> (r: Instruction)
        ensures
            r.op_code == OpCode::PrintChar && r.operands == Operands::Zero && r.wf(),
    {
        Instruction::bare(OpCode::PrintChar)
    }

    /// Halt normally, leaving the stack as it is.
    pub fn exit() -> (r: Instruction)
        ensures
            r.op_code == OpCode::Exit && r.operands == Operands::Zero && r.wf(),
    {
        Instruction::bare(OpCode::Exit)
    }

    /// Halt with the panic status.
    pub fn panic() -> (r: Instruction)
        ensures
            r.op_code == OpCode::Panic && r.operands == Operands::Zero && r.wf(),
    {
        Instruction::bare(OpCode::Panic)
    }

    /// Do nothing.
    pub fn nop() -> (r: Instruction)
        ensures
            r.op_code == OpCode::Nop && r.operands == Operands::Zero && r.wf(),
    {
        Instruction::bare(OpCode::Nop)
    }

    /// Pop two values and push one when they are equal, zero otherwise.
    pub fn eq() -> (r: Instruction)
        ensures
            r.op_code == OpCode::Eq && r.operands == Operands::Zero && r.wf(),
    {
        Instruction::bare(OpCode::Eq)
    }

    /// Pop two values and push one when the earlier is greater, else zero.
    pub fn gr() -> (r: Instruction)
        ensures
            r.op_code == OpCode::Gr && r.operands == Operands::Zero && r.wf(),
    {
        Instruction::bare(OpCode::Gr)
    }

    /// Pop two values and push one when the earlier is smaller, else zero.
    pub fn less() -> (r: Instruction)
        ensures
            r.op_code == OpCode::Less && r.operands == Operands::Zero && r.wf(),
    {
        Instruction::bare(OpCode::Less)
    }

    /// Peek the top and push one when it is zero, else zero.
    pub fn not() -> (r: Instruction)
        ensures
            r.op_code == OpCode::Not && r.operands == Operands::Zero && r.wf(),
    {
        Instruction::bare(OpCode::Not)
    }
}

impl Operands {
    /// Equality of operands: both empty, or values equal under promotion.
    pub open spec fn eq_spec_op(self, other: Operands) -> bool {
        match (self, other) {
            (Operands::Zero, Operands::Zero) => true,
            (Operands::One(a), Operands::One(b)) => a.eq_spec(&b),
            _ => false,
        }
    }
}

impl PartialEq for Operands {
    fn eq(&self, other: &Operands) -> (r: bool) {
        match (self, other) {
            (Operands::Zero, Operands::Zero) => true,
            (Operands::One(a), Operands::One(b)) => a == b,
            _ => false,
        }
    }
}

impl vstd::std_specs::cmp::PartialEqSpecImpl for Operands {
    open spec fn obeys_eq_spec() -> bool {
        true
    }

    open spec fn eq_spec(&self, other: &Operands) -> bool {
        self.eq_spec_op(*other)
    }
}

impl Eq for Operands {

}

impl Instruction {
    /// Equality of instructions: same opcode, equal operands.
    pub open spec fn eq_spec_instr(self, other: Instruction) -> bool {
        self.op_code == other.op_code && self.operands.eq_spec_op(other.operands)
    }
}

impl PartialEq for Instruction {
    fn eq(&self, other: &Instruction) -> (r: bool) {
        self.op_code == other.op_code && self.operands == other.operands
    }
}

impl vstd::std_specs::cmp::PartialEqSpecImpl for Instruction {
    open spec fn obeys_eq_spec() -> bool {
        true
    }

    open spec fn eq_spec(&self, other: &Instruction) -> bool {
        self.eq_spec_instr(*other)
    }
}

impl Eq for Instruction {

}

} // verus!
