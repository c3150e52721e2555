use vstd::prelude::*;

use crate::instruction::{views, Instruction, InstructionView, Opcode};

verus! {

/// Why a run stopped early.
#[derive(Clone, Debug, PartialEq, Eq)]
pub enum ExecErrorKind {
    /// A register was read before any value was put in it.
    UninitializedRegister(Vec<u8>),
    /// A jump named a line before the first.
    NegativeExecutionPointer,
}

/// The error that ends a run.
#[derive(Clone, Debug, PartialEq, Eq)]
pub struct ExecError {
    pub source: ExecErrorKind,
}

/// An execution error as a mathematical value.
pub enum Fault {
    Uninitialized(Seq<u8>),
    NegativePointer,
}

impl View for ExecError {
    type V = Fault;

    open spec fn view(&self) -> Fault {
        match self.source {
            ExecErrorKind::UninitializedRegister(name) => Fault::Uninitialized(name@),
            ExecErrorKind::NegativeExecutionPointer => Fault::NegativePointer,
        }
    }
}

impl ExecError {
    /// The error of the given kind.
    pub fn new(source: ExecErrorKind) -> (r: Self)
        ensures
            r.source == source,
    {
        Self { source }
    }

    fn uninitialized(name: &Vec<u8>) -> (r: Self)
        ensures
            r@ == Fault::Uninitialized(name@),
    {
        Self::new(ExecErrorKind::UninitializedRegister(name.clone()))
    }
}

/// What an instruction writes out.
#[derive(Clone, Copy, Debug, PartialEq, Eq, Structural)]
pub enum Output {
    /// `out`: the value in decimal, then a line break.
    Number(i32),
    /// `chr`: one character, with no line break.
    Char(char),
}

/// A Unicode scalar value: a code point that is not a surrogate.
pub open spec fn is_scalar_value(v: int) -> bool {
    0 <= v < 0xD800 || 0xE000 <= v <= 0x10FFFF
}

/// The code point that `chr` writes for `v`: `v` where it is a Unicode scalar value,
/// else that of the middle dot U+00B7.
pub open spec fn glyph_code(v: i32) -> u32 {
    if is_scalar_value(v as int) {
        v as u32
    } else {
        0xB7
    }
}

/// The code point of `c`.
pub open spec fn code_point(c: char) -> u32 {
    c as u32
}

/// The character that `chr` writes for `v`: the one whose code point is `glyph_code(v)`.
pub open spec fn glyph(v: i32) -> char {
    choose|c: char| #[trigger] code_point(c) == glyph_code(v)
}

/// Machine state as a mathematical value: the registers that hold a value, and the
/// index of the next instruction.
pub struct ProgramView {
    pub memory: Map<Seq<u8>, i32>,
    pub pointer: nat,
}

/// Reading register `r`.
pub open spec fn read(memory: Map<Seq<u8>, i32>, r: Seq<u8>) -> Result<i32, Fault> {
    if memory.contains_key(r) {
        Ok(memory[r])
    } else {
        Err(Fault::Uninitialized(r))
    }
}

/// Whether a conditional jump on `v` is taken.
pub open spec fn jump_taken(op: Opcode, v: i32) -> bool {
    match op {
        Opcode::Jwz => v == 0,
        Opcode::Jnz => v != 0,
        Opcode::Jwn => v < 0,
        Opcode::Jwp => v > 0,
        _ => true,
    }
}

/// The state after a jump to the line that `target` names, counted from 1.
pub open spec fn jump_to(memory: Map<Seq<u8>, i32>, target: i32) -> Result<
    (ProgramView, Option<Output>),
    Fault,
> {
    if target < 1 {
        Err(Fault::NegativePointer)
    } else {
        Ok((ProgramView { memory, pointer: (target - 1) as nat }, None))
    }
}

/// Register `r` set to `v`, and the pointer on to the next instruction.
pub open spec fn assign_next(s: ProgramView, r: Seq<u8>, v: i32) -> Result<
    (ProgramView, Option<Output>),
    Fault,
> {
    Ok((ProgramView { memory: s.memory.insert(r, v), pointer: s.pointer + 1 }, None))
}

/// One instruction run on state `s`: the next state and what it writes out, or the fault.
pub open spec fn step_spec(ins: InstructionView, s: ProgramView) -> Result<
    (ProgramView, Option<Output>),
    Fault,
> {
    let next = ProgramView { memory: s.memory, pointer: s.pointer + 1 };
    match ins.op {
        Opcode::Assign => assign_next(s, ins.first, ins.value),
        Opcode::Cpy => match read(s.memory, ins.first) {
            Err(f) => Err(f),
            Ok(a) => assign_next(s, ins.second, a),
        },
        Opcode::Add | Opcode::Sub | Opcode::Gth | Opcode::Lth => match read(s.memory, ins.first) {
            Err(f) => Err(f),
            Ok(a) => match read(s.memory, ins.second) {
                Err(f) => Err(f),
                Ok(b) => assign_next(s, ins.second, combine_spec(ins.op, a, b)),
            },
        },
        Opcode::Out => match read(s.memory, ins.first) {
            Err(f) => Err(f),
            Ok(a) => Ok((next, Some(Output::Number(a)))),
        },
        Opcode::Chr => match read(s.memory, ins.first) {
            Err(f) => Err(f),
            Ok(a) => Ok((next, Some(Output::Char(glyph(a))))),
        },
        Opcode::Jmp => match read(s.memory, ins.first) {
            Err(f) => Err(f),
            Ok(t) => jump_to(s.memory, t),
        },
        _ => match read(s.memory, ins.first) {
            Err(f) => Err(f),
            Ok(a) => if jump_taken(ins.op, a) {
                match read(s.memory, ins.second) {
                    Err(f) => Err(f),
                    Ok(t) => jump_to(s.memory, t),
                }
            } else {
                Ok((next, None))
            },
        },
    }
}

/// What one instruction writes out, as a sequence.
pub open spec fn emitted(o: Option<Output>) -> Seq<Output> {
    match o {
        Some(x) => seq![x],
        None => Seq::empty(),
    }
}

/// At most `fuel` instructions of `prog` run from state `s`: what they write out, how
/// many ran, and the state at the end (the pointer past the last instruction, or
/// `fuel` spent), or the fault that stopped them.
pub open spec fn run_spec(prog: Seq<InstructionView>, s: ProgramView, fuel: nat) -> (
    Seq<Output>,
    nat,
    Result<ProgramView, Fault>,
)
    decreases fuel,
{
    if fuel == 0 || s.pointer >= prog.len() {
        (Seq::empty(), 0, Ok(s))
    } else {
        match step_spec(prog[s.pointer as int], s) {
            Err(f) => (Seq::empty(), 0, Err(f)),
            Ok((next, o)) => {
                let rest = run_spec(prog, next, (fuel - 1) as nat);
                (emitted(o) + rest.0, rest.1 + 1, rest.2)
            },
        }
    }
}

/// The registers that a list of (name, value) entries holds; a later entry wins.
pub open spec fn memory_map(m: Seq<(Vec<u8>, i32)>) -> Map<Seq<u8>, i32>
    decreases m.len(),
{
    if m.len() == 0 {
        Map::empty()
    } else {
        memory_map(m.drop_last()).insert(m.last().0@, m.last().1)
    }
}

/// No two entries name the same register.
pub open spec fn names_unique(m: Seq<(Vec<u8>, i32)>) -> bool {
    forall|i: int, j: int| 0 <= i < j < m.len() ==> m[i].0@ != m[j].0@
}

proof fn lemma_memory_holds(m: Seq<(Vec<u8>, i32)>, i: int)
    requires
        names_unique(m),
        0 <= i < m.len(),
    ensures
        memory_map(m).contains_key(m[i].0@),
        memory_map(m)[m[i].0@] == m[i].1,
    decreases m.len(),
{
    if i < m.len() - 1 {
        let d = m.drop_last();
        assert(d[i] == m[i]);
        assert(m[i].0@ != m[m.len() - 1].0@);
        assert forall|a: int, b: int| 0 <= a < b < d.len() implies d[a].0@ != d[b].0@ by {
            assert(d[a] == m[a] && d[b] == m[b]);
        }
        lemma_memory_holds(d, i);
    }
}

proof fn lemma_memory_lacks(m: Seq<(Vec<u8>, i32)>, k: Seq<u8>)
    requires
        forall|i: int| 0 <= i < m.len() ==> (#[trigger] m[i]).0@ != k,
    ensures
        !memory_map(m).contains_key(k),
    decreases m.len(),
{
    if m.len() > 0 {
        let d = m.drop_last();
        assert forall|i: int| 0 <= i < d.len() implies (#[trigger] d[i]).0@ != k by {
            assert(d[i] == m[i]);
        }
        lemma_memory_lacks(d, k);
    }
}

proof fn lemma_memory_update(m: Seq<(Vec<u8>, i32)>, i: int, p: (Vec<u8>, i32))
    requires
        names_unique(m),
        0 <= i < m.len(),
        p.0@ == m[i].0@,
    ensures
        memory_map(m.update(i, p)) == memory_map(m).insert(p.0@, p.1),
        names_unique(m.update(i, p)),
    decreases m.len(),
{
    let u = m.update(i, p);
    let d = m.drop_last();
    assert forall|a: int, b: int| 0 <= a < b < u.len() implies u[a].0@ != u[b].0@ by {
        assert(u[a].0@ == m[a].0@ && u[b].0@ == m[b].0@);
    }
    if i == m.len() - 1 {
        assert(u.drop_last() =~= d);
        assert(memory_map(u) =~= memory_map(m).insert(p.0@, p.1));
    } else {
        assert forall|a: int, b: int| 0 <= a < b < d.len() implies d[a].0@ != d[b].0@ by {
            assert(d[a] == m[a] && d[b] == m[b]);
        }
        lemma_memory_update(d, i, p);
        assert(u.drop_last() =~= d.update(i, p));
        assert(m[i].0@ != m[m.len() - 1].0@);
        assert(memory_map(u) =~= memory_map(m).insert(p.0@, p.1));
    }
}

/// The state of a running program: its registers and the index of the next instruction.
///
/// Registers are kept as (name, value) entries, each name at most once. vstd specifies
/// its hash and ordered maps only for keys with a key model (integers, `bool`), not for
/// byte-string names, so a map keyed by name would let nothing be proved of a lookup.
pub struct Program {
    memory: Vec<(Vec<u8>, i32)>,
    pointer: usize,
}

impl View for Program {
    type V = ProgramView;

    closed spec fn view(&self) -> ProgramView {
        ProgramView { memory: memory_map(self.memory@), pointer: self.pointer as nat }
    }
}

fn same_name(a: &Vec<u8>, b: &Vec<u8>) -> (r: bool)
    ensures
        r == (a@ == b@),
{
    if a.len() != b.len() {
        return false;
    }
    let mut i: usize = 0;
    while i < a.len()
        invariant
            i <= a.len() == b.len(),
            forall|k: int| 0 <= k < i ==> a@[k] == b@[k],
        decreases a.len() - i,
    {
        if a[i] != b[i] {
            return false;
        }
        i = i + 1;
    }
    assert(a@ =~= b@);
    true
}

impl Program {
    /// The entries name each register at most once.
    pub closed spec fn wf(&self) -> bool {
        names_unique(self.memory@)
    }

    /// A program about to start: no register holds a value, and the pointer is at the
    /// first instruction.
    pub fn new() -> (r: Self)
        ensures
            r.wf(),
            r@.memory == Map::<Seq<u8>, i32>::empty(),
            r@.pointer == 0,
    {
        Program { memory: Vec::new(), pointer: 0 }
    }

    /// The index of the next instruction.
    pub fn pointer(&self) -> (r: usize)
        ensures
            r == self@.pointer,
    {
        self.pointer
    }

    /// Whether the pointer has left the instructions, which ends a run.
    pub fn halted(&self, instructions: &Vec<Instruction>) -> (r: bool)
        ensures
            r == (self@.pointer >= instructions.len()),
    {
        self.pointer >= instructions.len()
    }

    fn find(&self, name: &Vec<u8>) -> (r: Option<usize>)
        ensures
            match r {
                Some(i) => i < self.memory.len() && self.memory@[i as int].0@ == name@,
                None => forall|i: int| 0 <= i < self.memory.len() ==> (#[trigger] self.memory@[i]).0@ != name@,
            },
    {
        let mut i: usize = 0;
        while i < self.memory.len()
            invariant
                i <= self.memory.len(),
                forall|k: int| 0 <= k < i ==> (#[trigger] self.memory@[k]).0@ != name@,
            decreases self.memory.len() - i,
        {
            if same_name(&self.memory[i].0, name) {
                return Some(i);
            }
            i = i + 1;
        }
        None
    }

    /// The value of register `name`, if it holds one.
    pub fn get(&self, name: &Vec<u8>) -> (r: Option<i32>)
        requires
            self.wf(),
        ensures
            r == (if self@.memory.contains_key(name@) {
                Some(self@.memory[name@])
            } else {
                None
            }),
    {
        match self.find(name) {
            Some(i) => {
                proof {
                    lemma_memory_holds(self.memory@, i as int);
                }
                Some(self.memory[i].1)
            },
            None => {
                proof {
                    lemma_memory_lacks(self.memory@, name@);
                }
                None
            },
        }
    }

    fn read_register(&self, name: &Vec<u8>) -> (r: Result<i32, ExecError>)
        requires
            self.wf(),
        ensures
            match read(self@.memory, name@) {
                Ok(v) => r == Ok::<i32, ExecError>(v),
                Err(f) => r matches Err(e) && e@ == f,
            },
    {
        match self.get(name) {
            Some(v) => Ok(v),
            None => Err(ExecError::uninitialized(name)),
        }
    }

    fn write_register(&mut self, name: &Vec<u8>, v: i32)
        requires
            old(self).wf(),
        ensures
            final(self).wf(),
            final(self)@ == (ProgramView {
                memory: old(self)@.memory.insert(name@, v),
                pointer: old(self)@.pointer,
            }),
    {
        match self.find(name) {
            Some(i) => {
                let p = (name.clone(), v);
                proof {
                    lemma_memory_update(self.memory@, i as int, p);
                }
                self.memory.set(i, p);
            },
            None => {
                let ghost m = self.memory@;
                self.memory.push((name.clone(), v));
                proof {
                    assert(self.memory@.drop_last() =~= m);
                    assert forall|a: int, b: int| 0 <= a < b < self.memory@.len() implies
                        self.memory@[a].0@ != self.memory@[b].0@ by {
                        assert(self.memory@[a] == m[a] || a == m.len());
                        if b < m.len() {
                            assert(self.memory@[b] == m[b]);
                        } else {
                            assert(self.memory@[a] == m[a]);
                        }
                    }
                }
            },
        }
    }
}

/// Relies on `char::from_u32`: `Some` exactly for Unicode scalar values, holding the
/// character with that code point.
#[verifier::external_body]
fn char_from_code(code: u32) -> (r: Option<char>)
    ensures
        r is Some <==> is_scalar_value(code as int),
        r matches Some(c) ==> c as u32 == code,
{
    char::from_u32(code)
}

proof fn lemma_code_point_injective(a: char, b: char)
    requires
        code_point(a) == code_point(b),
    ensures
        a == b,
{
}

/// The character that `chr` writes for `v`.
pub fn char_for(v: i32) -> (r: char)
    ensures
        r == glyph(v),
{
    let c = if v < 0 {
        '\u{b7}'
    } else {
        match char_from_code(v as u32) {
            Some(c) => c,
            None => '\u{b7}',
        }
    };
    assert(code_point(c) == glyph_code(v));
    assert(code_point(glyph(v)) == glyph_code(v));
    proof {
        lemma_code_point_injective(glyph(v), c);
    }
    c
}

/// The new value of the second register of `add`, `sub`, `gth` or `lth`, from the values
/// `a` of the first register and `b` of the second. A sum or difference that leaves the
/// range of `i32` wraps around.
pub open spec fn combine_spec(op: Opcode, a: i32, b: i32) -> i32 {
    match op {
        Opcode::Add => b.wrapping_add(a),
        Opcode::Sub => b.wrapping_sub(a),
        Opcode::Gth => if a > b { 1i32 } else { -1i32 },
        _ => if a < b { 1i32 } else { -1i32 },
    }
}

fn combine(op: Opcode, a: i32, b: i32) -> (r: i32)
    ensures
        r == combine_spec(op, a, b),
{
    match op {
        Opcode::Add => b.wrapping_add(a),
        Opcode::Sub => b.wrapping_sub(a),
        Opcode::Gth => if a > b { 1 } else { -1 },
        _ => if a < b { 1 } else { -1 },
    }
}

fn takes_jump(op: Opcode, v: i32) -> (r: bool)
    ensures
        r == jump_taken(op, v),
{
    match op {
        Opcode::Jwz => v == 0,
        Opcode::Jnz => v != 0,
        Opcode::Jwn => v < 0,
        Opcode::Jwp => v > 0,
        _ => true,
    }
}

impl Program {
    fn jump(&mut self, target: i32) -> (r: Result<Option<Output>, ExecError>)
        requires
            old(self).wf(),
        ensures
            final(self).wf(),
            r is Err ==> final(self)@ == old(self)@,
            match jump_to(old(self)@.memory, target) {
                Ok((s, o)) => r == Ok::<Option<Output>, ExecError>(o) && final(self)@ == s,
                Err(f) => r matches Err(e) && e@ == f,
            },
    {
        if target < 1 {
            return Err(ExecError::new(ExecErrorKind::NegativeExecutionPointer));
        }
        self.pointer = (target - 1) as usize;
        Ok(None)
    }

    /// Runs the instruction at the pointer, which must be one of `instructions`.
    pub fn step(&mut self, instructions: &Vec<Instruction>) -> (r: Result<Option<Output>, ExecError>)
        requires
            old(self).wf(),
            old(self)@.pointer < instructions.len(),
        ensures
            final(self).wf(),
            r is Err ==> final(self)@ == old(self)@,
            match step_spec(instructions@[old(self)@.pointer as int]@, old(self)@) {
                Ok((s, o)) => r == Ok::<Option<Output>, ExecError>(o) && final(self)@ == s,
                Err(f) => r matches Err(e) && e@ == f,
            },
    {
        let i = self.pointer;
        instructions[i].execute(self)
    }

    /// Runs `instructions` from the current state until the pointer leaves them, an
    /// instruction fails, or `max_steps` instructions have run. What they write out is
    /// appended to `out`; the result is the number of instructions that ran.
    pub fn run(&mut self, instructions: &Vec<Instruction>, max_steps: usize, out: &mut Vec<Output>) -> (r:
        Result<usize, ExecError>)
        requires
            old(self).wf(),
        ensures
            final(self).wf(),
            ({
                let (o, n, end) = run_spec(views(instructions@), old(self)@, max_steps as nat);
                &&& final(out)@ == old(out)@ + o
                &&& match r {
                    Ok(k) => k == n && end == Ok::<ProgramView, Fault>(final(self)@),
                    Err(e) => end == Err::<ProgramView, Fault>(e@),
                }
            }),
    {
        let ghost prog = views(instructions@);
        let ghost start = self@;
        let ghost mut acc: Seq<Output> = Seq::empty();
        let mut k: usize = 0;
        while k < max_steps && self.pointer < instructions.len()
            invariant
                self.wf(),
                k <= max_steps,
                start == old(self)@,
                prog == views(instructions@),
                out@ == old(out)@ + acc,
                ({
                    let whole = run_spec(prog, start, max_steps as nat);
                    let rest = run_spec(prog, self@, (max_steps - k) as nat);
                    &&& whole.0 == acc + rest.0
                    &&& whole.1 == k + rest.1
                    &&& whole.2 == rest.2
                }),
            decreases max_steps - k,
        {
            let ghost before = self@;
            let ghost rest = run_spec(prog, before, (max_steps - k) as nat);
            assert(prog[before.pointer as int] == instructions@[before.pointer as int]@);
            match self.step(instructions) {
                Err(e) => {
                    assert(rest.0 == Seq::<Output>::empty());
                    assert(rest.2 == Err::<ProgramView, Fault>(e@));
                    assert(acc =~= acc + rest.0);
                    return Err(e);
                },
                Ok(o) => {
                    let ghost later = run_spec(prog, self@, (max_steps - k - 1) as nat);
                    assert(rest.0 == emitted(o) + later.0);
                    proof {
                        assert(acc + rest.0 =~= (acc + emitted(o)) + later.0);
                        acc = acc + emitted(o);
                    }
                    match o {
                        Some(x) => {
                            out.push(x);
                        },
                        None => {},
                    }
                    assert(out@ =~= old(out)@ + acc);
                },
            }
            k = k + 1;
        }
        assert(acc =~= acc + Seq::<Output>::empty());
        Ok(k)
    }
}

impl Instruction {
    /// Runs this instruction on `program`: what it writes out, or why it failed.
    pub fn execute(&self, program: &mut Program) -> (r: Result<Option<Output>, ExecError>)
        requires
            old(program).wf(),
            old(program)@.pointer < usize::MAX,
        ensures
            final(program).wf(),
            r is Err ==> final(program)@ == old(program)@,
            match step_spec(self@, old(program)@) {
                Ok((s, o)) => r == Ok::<Option<Output>, ExecError>(o) && final(program)@ == s,
                Err(f) => r matches Err(e) && e@ == f,
            },
    {
        let op = self.opcode();
        match self {
            Instruction::Assign { register, value } => {
                program.write_register(register, *value);
                program.pointer = program.pointer + 1;
                Ok(None)
            },
            Instruction::Cpy { register1, register2 } => {
                let a = match program.read_register(register1) {
                    Ok(a) => a,
                    Err(e) => return Err(e),
                };
                program.write_register(register2, a);
                program.pointer = program.pointer + 1;
                Ok(None)
            },
            Instruction::Add { register1, register2 }
            | Instruction::Sub { register1, register2 }
            | Instruction::Gth { register1, register2 }
            | Instruction::Lth { register1, register2 } => {
                let a = match program.read_register(register1) {
                    Ok(a) => a,
                    Err(e) => return Err(e),
                };
                let b = match program.read_register(register2) {
                    Ok(b) => b,
                    Err(e) => return Err(e),
                };
                program.write_register(register2, combine(op, a, b));
                program.pointer = program.pointer + 1;
                Ok(None)
            },
            Instruction::Out { register } => {
                let a = match program.read_register(register) {
                    Ok(a) => a,
                    Err(e) => return Err(e),
                };
                program.pointer = program.pointer + 1;
                Ok(Some(Output::Number(a)))
            },
            Instruction::Chr { register } => {
                let a = match program.read_register(register) {
                    Ok(a) => a,
                    Err(e) => return Err(e),
                };
                program.pointer = program.pointer + 1;
                Ok(Some(Output::Char(char_for(a))))
            },
            Instruction::Jmp { register } => {
                let t = match program.read_register(register) {
                    Ok(t) => t,
                    Err(e) => return Err(e),
                };
                program.jump(t)
            },
            Instruction::Jwz { register1, register2 }
            | Instruction::Jnz { register1, register2 }
            | Instruction::Jwn { register1, register2 }
            | Instruction::Jwp { register1, register2 } => {
                let a = match program.read_register(register1) {
                    Ok(a) => a,
                    Err(e) => return Err(e),
                };
                if takes_jump(op, a) {
                    let t = match program.read_register(register2) {
                        Ok(t) => t,
                        Err(e) => return Err(e),
                    };
                    program.jump(t)
                } else {
                    program.pointer = program.pointer + 1;
                    Ok(None)
                }
            },
        }
    }
}

} // verus!
