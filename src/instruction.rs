use vstd::prelude::*;

verus! {

/// The operation an instruction performs, one per keyword of the language.
#[derive(Clone, Copy, Debug, PartialEq, Eq, Structural)]
pub enum Opcode {
    /// The `set` keyword.
    Assign,
    Cpy,
    Add,
    Sub,
    Out,
    Jmp,
    Jwz,
    Jnz,
    Jwn,
    Jwp,
    Gth,
    Lth,
    Chr,
}

/// The operands that follow a keyword on a line.
#[derive(Clone, Copy, Debug, PartialEq, Eq, Structural)]
pub enum Shape {
    /// `<keyword> <register>`
    OneRegister,
    /// `<keyword> <register> <value>`
    RegisterValue,
    /// `<keyword> <register> <register>`
    TwoRegisters,
}

pub open spec fn shape_of(op: Opcode) -> Shape {
    match op {
        Opcode::Out | Opcode::Jmp | Opcode::Chr => Shape::OneRegister,
        Opcode::Assign => Shape::RegisterValue,
        _ => Shape::TwoRegisters,
    }
}

pub fn shape(op: Opcode) -> (r: Shape)
    ensures
        r == shape_of(op),
{
    match op {
        Opcode::Out | Opcode::Jmp | Opcode::Chr => Shape::OneRegister,
        Opcode::Assign => Shape::RegisterValue,
        _ => Shape::TwoRegisters,
    }
}

/// An opcode that may jump.
pub open spec fn is_jump(op: Opcode) -> bool {
    match op {
        Opcode::Jmp | Opcode::Jwz | Opcode::Jnz | Opcode::Jwn | Opcode::Jwp => true,
        _ => false,
    }
}

/// What an instruction is, as a mathematical value: its opcode and its operands.
/// Operands that the opcode does not take are empty (registers) or zero (the value).
pub struct InstructionView {
    pub op: Opcode,
    pub first: Seq<u8>,
    pub second: Seq<u8>,
    pub value: i32,
}

pub open spec fn one_register_view(op: Opcode, r: Seq<u8>) -> InstructionView {
    InstructionView { op, first: r, second: Seq::empty(), value: 0 }
}

pub open spec fn two_register_view(op: Opcode, r1: Seq<u8>, r2: Seq<u8>) -> InstructionView {
    InstructionView { op, first: r1, second: r2, value: 0 }
}

pub open spec fn set_view(r: Seq<u8>, v: i32) -> InstructionView {
    InstructionView { op: Opcode::Assign, first: r, second: Seq::empty(), value: v }
}

/// One parsed line of a program. Register names are the bytes of their identifiers.
#[derive(Clone, Debug, PartialEq, Eq)]
pub enum Instruction {
    /// `set <register> <value>`
    Assign { register: Vec<u8>, value: i32 },
    Cpy { register1: Vec<u8>, register2: Vec<u8> },
    Add { register1: Vec<u8>, register2: Vec<u8> },
    Sub { register1: Vec<u8>, register2: Vec<u8> },
    Out { register: Vec<u8> },
    Jmp { register: Vec<u8> },
    Jwz { register1: Vec<u8>, register2: Vec<u8> },
    Jnz { register1: Vec<u8>, register2: Vec<u8> },
    Jwn { register1: Vec<u8>, register2: Vec<u8> },
    Jwp { register1: Vec<u8>, register2: Vec<u8> },
    Gth { register1: Vec<u8>, register2: Vec<u8> },
    Lth { register1: Vec<u8>, register2: Vec<u8> },
    Chr { register: Vec<u8> },
}

impl View for Instruction {
    type V = InstructionView;

    open spec fn view(&self) -> InstructionView {
        match self {
            Instruction::Assign { register, value } => set_view(register@, *value),
            Instruction::Cpy { register1, register2 } => two_register_view(Opcode::Cpy, register1@, register2@),
            Instruction::Add { register1, register2 } => two_register_view(Opcode::Add, register1@, register2@),
            Instruction::Sub { register1, register2 } => two_register_view(Opcode::Sub, register1@, register2@),
            Instruction::Out { register } => one_register_view(Opcode::Out, register@),
            Instruction::Jmp { register } => one_register_view(Opcode::Jmp, register@),
            Instruction::Jwz { register1, register2 } => two_register_view(Opcode::Jwz, register1@, register2@),
            Instruction::Jnz { register1, register2 } => two_register_view(Opcode::Jnz, register1@, register2@),
            Instruction::Jwn { register1, register2 } => two_register_view(Opcode::Jwn, register1@, register2@),
            Instruction::Jwp { register1, register2 } => two_register_view(Opcode::Jwp, register1@, register2@),
            Instruction::Gth { register1, register2 } => two_register_view(Opcode::Gth, register1@, register2@),
            Instruction::Lth { register1, register2 } => two_register_view(Opcode::Lth, register1@, register2@),
            Instruction::Chr { register } => one_register_view(Opcode::Chr, register@),
        }
    }
}

/// The views of a sequence of instructions.
pub open spec fn views(s: Seq<Instruction>) -> Seq<InstructionView> {
    s.map_values(|i: Instruction| i@)
}

impl Instruction {
    /// Builds the instruction `<op> <register>`.
    pub fn from_one_register(op: Opcode, register: Vec<u8>) -> (r: Instruction)
        requires
            shape_of(op) == Shape::OneRegister,
        ensures
            r@ == one_register_view(op, register@),
    {
        match op {
            Opcode::Out => Instruction::Out { register },
            Opcode::Jmp => Instruction::Jmp { register },
            _ => Instruction::Chr { register },
        }
    }

    /// Builds the instruction `set <register> <value>`.
    pub fn from_register_value(register: Vec<u8>, value: i32) -> (r: Instruction)
        ensures
            r@ == set_view(register@, value),
    {
        Instruction::Assign { register, value }
    }

    /// Builds the instruction `<op> <register1> <register2>`.
    pub fn from_two_registers(op: Opcode, register1: Vec<u8>, register2: Vec<u8>) -> (r: Instruction)
        requires
            shape_of(op) == Shape::TwoRegisters,
        ensures
            r@ == two_register_view(op, register1@, register2@),
    {
        match op {
            Opcode::Cpy => Instruction::Cpy { register1, register2 },
            Opcode::Add => Instruction::Add { register1, register2 },
            Opcode::Sub => Instruction::Sub { register1, register2 },
            Opcode::Jwz => Instruction::Jwz { register1, register2 },
            Opcode::Jnz => Instruction::Jnz { register1, register2 },
            Opcode::Jwn => Instruction::Jwn { register1, register2 },
            Opcode::Jwp => Instruction::Jwp { register1, register2 },
            Opcode::Gth => Instruction::Gth { register1, register2 },
            _ => Instruction::Lth { register1, register2 },
        }
    }

    /// The opcode of this instruction.
    pub fn opcode(&self) -> (r: Opcode)
        ensures
            r == self@.op,
    {
        match self {
            Instruction::Assign { .. } => Opcode::Assign,
            Instruction::Cpy { .. } => Opcode::Cpy,
            Instruction::Add { .. } => Opcode::Add,
            Instruction::Sub { .. } => Opcode::Sub,
            Instruction::Out { .. } => Opcode::Out,
            Instruction::Jmp { .. } => Opcode::Jmp,
            Instruction::Jwz { .. } => Opcode::Jwz,
            Instruction::Jnz { .. } => Opcode::Jnz,
            Instruction::Jwn { .. } => Opcode::Jwn,
            Instruction::Jwp { .. } => Opcode::Jwp,
            Instruction::Gth { .. } => Opcode::Gth,
            Instruction::Lth { .. } => Opcode::Lth,
            Instruction::Chr { .. } => Opcode::Chr,
        }
    }
}

} // verus!
