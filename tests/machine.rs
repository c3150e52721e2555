use simply::grammar::parse_program;
use simply::instruction::Instruction;
use simply::machine::{char_for, ExecError, ExecErrorKind, Output, Program};

fn load(lines: &[&str]) -> Vec<Instruction> {
    let lines: Vec<Vec<u8>> = lines.iter().map(|l| l.as_bytes().to_vec()).collect();
    parse_program(&lines).unwrap()
}

fn run(lines: &[&str], max_steps: usize) -> (Program, Vec<Output>, Result<usize, ExecError>) {
    let instructions = load(lines);
    let mut program = Program::new();
    let mut out = Vec::new();
    let r = program.run(&instructions, max_steps, &mut out);
    (program, out, r)
}

fn uninitialized(name: &str) -> ExecError {
    ExecError::new(ExecErrorKind::UninitializedRegister(name.as_bytes().to_vec()))
}

fn negative() -> ExecError {
    ExecError::new(ExecErrorKind::NegativeExecutionPointer)
}

fn render(out: &[Output]) -> String {
    let mut s = String::new();
    for o in out {
        match o {
            Output::Number(v) => s.push_str(&format!("{}\n", v)),
            Output::Char(c) => s.push(*c),
        }
    }
    s
}

#[test]
fn set_then_out_writes_value() {
    let (program, out, r) = run(&["set x 5", "out x"], 100);
    assert_eq!(r, Ok(2));
    assert_eq!(out, vec![Output::Number(5)]);
    assert_eq!(render(&out), "5\n");
    assert_eq!(program.pointer(), 2);
}

#[test]
fn gth_on_equal_values_gives_minus_one() {
    let (_, out, r) = run(&["set a 3", "set b 3", "gth a b", "out b"], 100);
    assert_eq!(r, Ok(4));
    assert_eq!(render(&out), "-1\n");
}

#[test]
fn jump_loop_never_halts_on_its_own() {
    let instructions = load(&["set i 0", "set top 1", "jwz i top"]);
    let mut program = Program::new();
    let mut out = Vec::new();
    let r = program.run(&instructions, 100_000, &mut out);
    assert_eq!(r, Ok(100_000));
    assert!(!program.halted(&instructions));
    assert!(out.is_empty());
}

#[test]
fn chr_writes_one_character_without_line_break() {
    let (_, out, r) = run(&["set c 65", "chr c"], 100);
    assert_eq!(r, Ok(2));
    assert_eq!(out, vec![Output::Char('A')]);
    assert_eq!(render(&out), "A");
}

#[test]
fn chr_falls_back_to_middle_dot() {
    assert_eq!(char_for(65), 'A');
    assert_eq!(char_for(0x1F600), '\u{1F600}');
    assert_eq!(char_for(-1), '\u{b7}');
    assert_eq!(char_for(0xD800), '\u{b7}');
    assert_eq!(char_for(0x110000), '\u{b7}');
    let (_, out, _) = run(&["set c -5", "chr c"], 100);
    assert_eq!(out, vec![Output::Char('\u{b7}')]);
}

#[test]
fn set_value_is_read_by_later_instructions() {
    let (program, out, r) = run(&["set r 42", "set s 1", "out r", "out r"], 100);
    assert_eq!(r, Ok(4));
    assert_eq!(out, vec![Output::Number(42), Output::Number(42)]);
    assert_eq!(program.get(&b"r".to_vec()), Some(42));
    assert_eq!(program.get(&b"q".to_vec()), None);
}

#[test]
fn set_overwrites_previous_value() {
    let (program, _, _) = run(&["set r 1", "set r -9"], 100);
    assert_eq!(program.get(&b"r".to_vec()), Some(-9));
}

#[test]
fn cpy_creates_destination() {
    let (program, _, r) = run(&["set a 7", "cpy a b"], 100);
    assert_eq!(r, Ok(2));
    assert_eq!(program.get(&b"b".to_vec()), Some(7));
    assert_eq!(program.get(&b"a".to_vec()), Some(7));
}

#[test]
fn add_and_sub_update_second_register() {
    let (program, out, _) = run(&["set a 3", "set b 10", "add a b", "out b", "sub a b", "sub a b", "out b"], 100);
    assert_eq!(out, vec![Output::Number(13), Output::Number(7)]);
    assert_eq!(program.get(&b"a".to_vec()), Some(3));
}

#[test]
fn add_wraps_at_the_bounds() {
    let (_, out, _) = run(&["set a 1", "set b 2147483647", "add a b", "out b"], 100);
    assert_eq!(out, vec![Output::Number(-2147483648)]);
    let (_, out, _) = run(&["set a 1", "set b -2147483648", "sub a b", "out b"], 100);
    assert_eq!(out, vec![Output::Number(2147483647)]);
}

#[test]
fn comparisons_give_one_or_minus_one() {
    let (_, out, _) = run(&["set a 5", "set b 2", "gth a b", "out b"], 100);
    assert_eq!(out, vec![Output::Number(1)]);
    let (_, out, _) = run(&["set a 2", "set b 5", "gth a b", "out b"], 100);
    assert_eq!(out, vec![Output::Number(-1)]);
    let (_, out, _) = run(&["set a 2", "set b 5", "lth a b", "out b"], 100);
    assert_eq!(out, vec![Output::Number(1)]);
    let (_, out, _) = run(&["set a 5", "set b 2", "lth a b", "out b"], 100);
    assert_eq!(out, vec![Output::Number(-1)]);
    let (_, out, _) = run(&["set a 4", "set b 4", "lth a b", "out b"], 100);
    assert_eq!(out, vec![Output::Number(-1)]);
}

#[test]
fn comparison_needs_initialized_destination() {
    let (_, _, r) = run(&["set a 4", "gth a b"], 100);
    assert_eq!(r, Err(uninitialized("b")));
    let (_, _, r) = run(&["set a 4", "lth a b"], 100);
    assert_eq!(r, Err(uninitialized("b")));
}

#[test]
fn every_read_of_an_unset_register_fails() {
    for line in ["out x", "chr x", "jmp x", "cpy x y", "add x y", "sub x y", "gth x y", "lth x y", "jwz x y", "jnz x y", "jwn x y", "jwp x y"] {
        let (_, out, r) = run(&["set y 1", line, "out y"], 100);
        assert_eq!(r, Err(uninitialized("x")), "{}", line);
        assert!(out.is_empty());
    }
    for line in ["add x y", "sub x y"] {
        let (_, _, r) = run(&["set x 1", line], 100);
        assert_eq!(r, Err(uninitialized("y")), "{}", line);
    }
}

#[test]
fn taken_jump_needs_initialized_target() {
    let (_, _, r) = run(&["set c 0", "jwz c t"], 100);
    assert_eq!(r, Err(uninitialized("t")));
    let (_, _, r) = run(&["set c 1", "jwz c t"], 100);
    assert_eq!(r, Ok(2));
}

#[test]
fn jmp_below_one_fails() {
    let (_, _, r) = run(&["set t 0", "jmp t"], 100);
    assert_eq!(r, Err(negative()));
    let (_, _, r) = run(&["set t -3", "jmp t"], 100);
    assert_eq!(r, Err(negative()));
    let (_, _, r) = run(&["set c 0", "set t 0", "jwz c t"], 100);
    assert_eq!(r, Err(negative()));
}

#[test]
fn jmp_to_one_returns_to_first_instruction() {
    let instructions = load(&["set t 1", "jmp t"]);
    let mut program = Program::new();
    assert_eq!(program.step(&instructions), Ok(None));
    assert_eq!(program.pointer(), 1);
    assert_eq!(program.step(&instructions), Ok(None));
    assert_eq!(program.pointer(), 0);
}

#[test]
fn jump_past_the_end_halts() {
    let (program, _, r) = run(&["set t 9", "jmp t", "out t"], 100);
    assert_eq!(r, Ok(2));
    assert_eq!(program.pointer(), 8);
}

#[test]
fn conditional_jumps_follow_their_condition() {
    let cases = [
        ("jwz", 0, true),
        ("jwz", 3, false),
        ("jnz", 3, true),
        ("jnz", 0, false),
        ("jwn", -2, true),
        ("jwn", 0, false),
        ("jwp", 2, true),
        ("jwp", 0, false),
    ];
    for (kw, c, taken) in cases {
        let lines = [format!("set c {}", c), "set t 5".to_string(), format!("{} c t", kw), "set o 1".to_string(), "out c".to_string()];
        let refs: Vec<&str> = lines.iter().map(|s| s.as_str()).collect();
        let (_, out, r) = run(&refs, 100);
        if taken {
            assert_eq!(r, Ok(4), "{} {}", kw, c);
        } else {
            assert_eq!(r, Ok(5), "{} {}", kw, c);
        }
        assert_eq!(out, vec![Output::Number(c)]);
    }
}

#[test]
fn straight_line_program_runs_each_instruction_once() {
    let lines = ["set a 1", "set b 2", "add a b", "cpy b c", "out c"];
    let (program, out, r) = run(&lines, 1000);
    assert_eq!(r, Ok(5));
    assert_eq!(program.pointer(), 5);
    assert_eq!(out, vec![Output::Number(3)]);
    let (program, _, r) = run(&lines, 3);
    assert_eq!(r, Ok(3));
    assert_eq!(program.pointer(), 3);
}

#[test]
fn empty_program_halts_at_once() {
    let (program, out, r) = run(&[], 10);
    assert_eq!(r, Ok(0));
    assert!(out.is_empty());
    assert_eq!(program.pointer(), 0);
}

#[test]
fn output_before_a_fault_is_kept() {
    let (_, out, r) = run(&["set a 1", "out a", "out b", "out a"], 100);
    assert_eq!(out, vec![Output::Number(1)]);
    assert_eq!(r, Err(uninitialized("b")));
}

#[test]
fn countdown_loop_terminates() {
    let lines = ["set n 3", "set one 1", "set top 4", "out n", "sub one n", "jnz n top"];
    let (_, out, r) = run(&lines, 1000);
    assert_eq!(r, Ok(3 + 3 * 3));
    assert_eq!(out, vec![Output::Number(3), Output::Number(2), Output::Number(1)]);
}

#[test]
fn failed_step_leaves_state_unchanged() {
    let instructions = load(&["set t 0", "out u", "jmp t"]);
    let mut program = Program::new();
    assert_eq!(program.step(&instructions), Ok(None));
    assert_eq!(program.step(&instructions), Err(uninitialized("u")));
    assert_eq!(program.pointer(), 1);
    assert_eq!(program.get(&b"t".to_vec()), Some(0));
    assert_eq!(program.get(&b"u".to_vec()), None);
}
