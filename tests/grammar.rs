use simply::grammar::{instruction, parse_program, register};
use simply::instruction::{Instruction, Opcode};

fn parse(line: &str) -> Option<Instruction> {
    instruction(line.as_bytes())
}

fn bytes(s: &str) -> Vec<u8> {
    s.as_bytes().to_vec()
}

#[test]
fn register_accepts_valid_names() {
    for name in ["alpha", "bear_nap", "a11y", "r0ck_and_r0ll", "X", "Zz_9"] {
        assert_eq!(register(name.as_bytes(), 0), Some(name.len()), "{}", name);
    }
}

#[test]
fn register_rejects_invalid_names() {
    assert_eq!(register(b"_foo", 0), None);
    assert_eq!(register(b"1abc", 0), None);
    assert_eq!(register(b"", 0), None);
    assert_eq!(register(b" x", 0), None);
}

#[test]
fn register_stops_at_first_other_byte() {
    assert_eq!(register(b"ab-c", 0), Some(2));
    assert_eq!(register(b"set x 5", 4), Some(5));
}

#[test]
fn parses_set_with_signed_literals() {
    assert_eq!(parse("set x 5"), Some(Instruction::Assign { register: bytes("x"), value: 5 }));
    assert_eq!(parse("set x -5"), Some(Instruction::Assign { register: bytes("x"), value: -5 }));
    assert_eq!(parse("set x +7"), Some(Instruction::Assign { register: bytes("x"), value: 7 }));
}

#[test]
fn parses_literal_limits() {
    assert_eq!(
        parse("set m 2147483647"),
        Some(Instruction::Assign { register: bytes("m"), value: 2147483647 })
    );
    assert_eq!(
        parse("set m -2147483648"),
        Some(Instruction::Assign { register: bytes("m"), value: -2147483648 })
    );
}

#[test]
fn rejects_out_of_range_literals() {
    assert_eq!(parse("set m 2147483648"), None);
    assert_eq!(parse("set m -2147483649"), None);
    assert_eq!(parse("set m 99999999999999999999"), None);
}

#[test]
fn rejects_literal_without_digits() {
    assert_eq!(parse("set x -"), None);
    assert_eq!(parse("set x"), None);
    assert_eq!(parse("set x y"), None);
}

#[test]
fn tolerates_runs_of_blanks() {
    assert_eq!(
        parse("cpy   a \t b   "),
        Some(Instruction::Cpy { register1: bytes("a"), register2: bytes("b") })
    );
    assert_eq!(parse("out\tx\t"), Some(Instruction::Out { register: bytes("x") }));
}

#[test]
fn rejects_trailing_text() {
    assert_eq!(parse("out x y"), None);
    assert_eq!(parse("set x 5 6"), None);
    assert_eq!(parse("add a b c"), None);
    assert_eq!(parse("set x 5z"), None);
}

#[test]
fn rejects_unknown_keywords_and_bad_registers() {
    assert_eq!(parse("mov a b"), None);
    assert_eq!(parse(""), None);
    assert_eq!(parse("set 1x 5"), None);
    assert_eq!(parse("out _x"), None);
    assert_eq!(parse("add a"), None);
    assert_eq!(parse("out"), None);
}

#[test]
fn parses_every_opcode() {
    let two = [
        ("cpy", Opcode::Cpy),
        ("add", Opcode::Add),
        ("sub", Opcode::Sub),
        ("jwz", Opcode::Jwz),
        ("jnz", Opcode::Jnz),
        ("jwn", Opcode::Jwn),
        ("jwp", Opcode::Jwp),
        ("gth", Opcode::Gth),
        ("lth", Opcode::Lth),
    ];
    for (kw, op) in two {
        let ins = parse(&format!("{} first second", kw)).unwrap();
        assert_eq!(ins.opcode(), op);
        assert_eq!(ins, Instruction::from_two_registers(op, bytes("first"), bytes("second")));
    }
    for (kw, op) in [("out", Opcode::Out), ("jmp", Opcode::Jmp), ("chr", Opcode::Chr)] {
        let ins = parse(&format!("{} reg", kw)).unwrap();
        assert_eq!(ins.opcode(), op);
        assert_eq!(ins, Instruction::from_one_register(op, bytes("reg")));
    }
}

#[test]
fn shapes_do_not_mix() {
    assert_eq!(parse("out a b"), None);
    assert_eq!(parse("set a b"), None);
    assert_eq!(parse("add a 5"), None);
    assert_eq!(parse("jmp a 1"), None);
}

#[test]
fn parse_program_reads_all_lines() {
    let lines = vec![bytes("set x 5"), bytes("out x")];
    let program = parse_program(&lines).unwrap();
    assert_eq!(
        program,
        vec![
            Instruction::Assign { register: bytes("x"), value: 5 },
            Instruction::Out { register: bytes("x") },
        ]
    );
}

#[test]
fn parse_program_stops_at_first_bad_line() {
    let lines = vec![bytes("set x 5"), bytes("bogus"), bytes("also bad")];
    let err = parse_program(&lines).unwrap_err();
    assert_eq!(err.line, 2);
    assert_eq!(err.text, bytes("bogus"));
}

#[test]
fn parse_program_of_no_lines_is_empty() {
    assert_eq!(parse_program(&Vec::new()).unwrap(), Vec::<Instruction>::new());
}

#[test]
fn tolerates_leading_blanks() {
    assert_eq!(parse("  out x"), Some(Instruction::Out { register: bytes("x") }));
    assert_eq!(parse("\tset x 5 "), Some(Instruction::Assign { register: bytes("x"), value: 5 }));
    assert_eq!(
        parse(" \t gth a   b"),
        Some(Instruction::Gth { register1: bytes("a"), register2: bytes("b") })
    );
    assert_eq!(parse("   "), None);
    assert_eq!(parse("  o ut x"), None);
}
