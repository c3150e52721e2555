use vstd::prelude::*;

use crate::instruction::{is_jump, one_register_view, set_view, InstructionView, Opcode};
use crate::machine::{jump_taken, read, run_spec, step_spec, Fault, Output, ProgramView};

verus! {

/// The register that an instruction writes, if it writes one.
pub open spec fn written(ins: InstructionView) -> Option<Seq<u8>> {
    match ins.op {
        Opcode::Assign => Some(ins.first),
        Opcode::Cpy | Opcode::Add | Opcode::Sub | Opcode::Gth | Opcode::Lth => Some(ins.second),
        _ => None,
    }
}

/// `set r v` leaves `v` in `r`, and an `out r` run next writes exactly `v`.
pub proof fn lemma_set_then_read(s: ProgramView, r: Seq<u8>, v: i32)
    ensures
        step_spec(set_view(r, v), s) matches Ok((t, o)) && {
            &&& o is None
            &&& t.pointer == s.pointer + 1
            &&& read(t.memory, r) == Ok::<i32, Fault>(v)
            &&& step_spec(one_register_view(Opcode::Out, r), t) == Ok::<
                (ProgramView, Option<Output>),
                Fault,
            >((ProgramView { memory: t.memory, pointer: t.pointer + 1 }, Some(Output::Number(v))))
        },
{
}

/// An instruction that does not write register `r` leaves what `r` holds as it was, so
/// a value put in `r` is read back by every later instruction until `r` is written again.
pub proof fn lemma_other_registers_kept(ins: InstructionView, s: ProgramView, r: Seq<u8>)
    requires
        written(ins) != Some(r),
    ensures
        step_spec(ins, s) matches Ok((t, o)) ==> read(t.memory, r) == read(s.memory, r),
{
    if step_spec(ins, s) is Ok {
        let t = step_spec(ins, s)->Ok_0.0;
        if let Some(w) = written(ins) {
            assert(t.memory.dom() =~= s.memory.dom().insert(w));
        } else {
            assert(t.memory == s.memory);
        }
    }
}

/// Every instruction but `set` reads its first register, and fails with that register's
/// name where it holds no value. `add`, `sub`, `gth` and `lth` then read their second
/// register, and so does a conditional jump that is taken; each fails the same way
/// where it holds no value.
pub proof fn lemma_uninitialized_read(ins: InstructionView, s: ProgramView)
    ensures
        ins.op != Opcode::Assign && !s.memory.contains_key(ins.first) ==> step_spec(ins, s)
            == Err::<(ProgramView, Option<Output>), Fault>(Fault::Uninitialized(ins.first)),
        (ins.op == Opcode::Add || ins.op == Opcode::Sub || ins.op == Opcode::Gth || ins.op
            == Opcode::Lth) && s.memory.contains_key(ins.first) && !s.memory.contains_key(
            ins.second,
        ) ==> step_spec(ins, s) == Err::<(ProgramView, Option<Output>), Fault>(
            Fault::Uninitialized(ins.second),
        ),
        (ins.op == Opcode::Jwz || ins.op == Opcode::Jnz || ins.op == Opcode::Jwn || ins.op
            == Opcode::Jwp) && s.memory.contains_key(ins.first) && jump_taken(
            ins.op,
            s.memory[ins.first],
        ) && !s.memory.contains_key(ins.second) ==> step_spec(ins, s) == Err::<
            (ProgramView, Option<Output>),
            Fault,
        >(Fault::Uninitialized(ins.second)),
{
}

/// `jmp r` fails where `r` holds 0 or less, and goes to the first instruction where it
/// holds 1.
pub proof fn lemma_jmp_target(s: ProgramView, r: Seq<u8>)
    requires
        s.memory.contains_key(r),
    ensures
        s.memory[r] < 1 ==> step_spec(one_register_view(Opcode::Jmp, r), s) == Err::<
            (ProgramView, Option<Output>),
            Fault,
        >(Fault::NegativePointer),
        s.memory[r] == 1 ==> step_spec(one_register_view(Opcode::Jmp, r), s) == Ok::<
            (ProgramView, Option<Output>),
            Fault,
        >((ProgramView { memory: s.memory, pointer: 0 }, None)),
{
}

/// `gth` and `lth` leave 1 or -1 in their second register and nothing else; on equal
/// values both leave -1.
pub proof fn lemma_comparison_result(ins: InstructionView, s: ProgramView)
    requires
        ins.op == Opcode::Gth || ins.op == Opcode::Lth,
    ensures
        step_spec(ins, s) matches Ok((t, o)) ==> t.memory[ins.second] == 1 || t.memory[ins.second]
            == -1,
        s.memory.contains_key(ins.first) && s.memory.contains_key(ins.second) && s.memory[ins.first]
            == s.memory[ins.second] ==> (step_spec(ins, s) matches Ok((t, o)) && t.memory[ins.second]
            == -1),
{
}

/// Without jumps, each instruction that succeeds moves the pointer on by one.
proof fn lemma_straight_line_from(prog: Seq<InstructionView>, s: ProgramView, fuel: nat)
    requires
        forall|i: int| 0 <= i < prog.len() ==> !is_jump(#[trigger] prog[i].op),
        s.pointer <= prog.len(),
    ensures
        run_spec(prog, s, fuel).2 matches Ok(t) ==> {
            let n = if fuel < prog.len() - s.pointer {
                fuel as int
            } else {
                prog.len() - s.pointer
            };
            &&& run_spec(prog, s, fuel).1 == n
            &&& t.pointer == s.pointer + n
        },
    decreases fuel,
{
    if fuel > 0 && s.pointer < prog.len() {
        let ins = prog[s.pointer as int];
        assert(!is_jump(ins.op));
        if let Ok((next, o)) = step_spec(ins, s) {
            assert(next.pointer == s.pointer + 1);
            lemma_straight_line_from(prog, next, (fuel - 1) as nat);
        }
    }
}

/// A program of N instructions without jumps, run from its first instruction with room
/// for `fuel` steps, either fails or runs min(fuel, N) instructions and stands at that
/// index: given N steps or more it halts after exactly N.
pub proof fn lemma_straight_line_program(
    prog: Seq<InstructionView>,
    memory: Map<Seq<u8>, i32>,
    fuel: nat,
)
    requires
        forall|i: int| 0 <= i < prog.len() ==> !is_jump(#[trigger] prog[i].op),
    ensures
        ({
            let (o, n, end) = run_spec(prog, ProgramView { memory, pointer: 0 }, fuel);
            end matches Ok(t) ==> {
                &&& n == if fuel < prog.len() {
                    fuel as int
                } else {
                    prog.len() as int
                }
                &&& t.pointer == n
                &&& fuel >= prog.len() ==> t.pointer == prog.len()
            }
        }),
{
    lemma_straight_line_from(prog, ProgramView { memory, pointer: 0 }, fuel);
}

/// The register that holds where a jump goes: the only one of `jmp`, the second of the others.
pub open spec fn target_register(ins: InstructionView) -> Seq<u8> {
    if ins.op == Opcode::Jmp {
        ins.first
    } else {
        ins.second
    }
}

/// A jump that is taken and names its own line never lets a run end: however many steps
/// are allowed, all of them run, nothing is written, and the state stays as it was.
pub proof fn lemma_self_jump_never_halts(prog: Seq<InstructionView>, s: ProgramView, fuel: nat)
    requires
        s.pointer < prog.len(),
        is_jump(prog[s.pointer as int].op),
        s.memory.contains_key(prog[s.pointer as int].first),
        jump_taken(prog[s.pointer as int].op, s.memory[prog[s.pointer as int].first]),
        s.memory.contains_key(target_register(prog[s.pointer as int])),
        s.memory[target_register(prog[s.pointer as int])] == s.pointer + 1,
    ensures
        run_spec(prog, s, fuel) == (Seq::<Output>::empty(), fuel, Ok::<ProgramView, Fault>(s)),
    decreases fuel,
{
    if fuel > 0 {
        let ins = prog[s.pointer as int];
        assert(step_spec(ins, s) == Ok::<(ProgramView, Option<Output>), Fault>((s, None)));
        lemma_self_jump_never_halts(prog, s, (fuel - 1) as nat);
        assert(Seq::<Output>::empty() + Seq::<Output>::empty() =~= Seq::<Output>::empty());
    }
}

/// A run of a program none of whose instructions writes register `r` ends with `r` as it
/// began: a value put in `r` by `set` is what every later instruction reads from it.
pub proof fn lemma_value_kept_through_run(
    prog: Seq<InstructionView>,
    s: ProgramView,
    fuel: nat,
    r: Seq<u8>,
)
    requires
        forall|i: int| 0 <= i < prog.len() ==> written(#[trigger] prog[i]) != Some(r),
    ensures
        run_spec(prog, s, fuel).2 matches Ok(t) ==> read(t.memory, r) == read(s.memory, r),
    decreases fuel,
{
    if fuel > 0 && s.pointer < prog.len() {
        let ins = prog[s.pointer as int];
        lemma_other_registers_kept(ins, s, r);
        if let Ok((next, o)) = step_spec(ins, s) {
            lemma_value_kept_through_run(prog, next, (fuel - 1) as nat, r);
        }
    }
}

} // verus!
