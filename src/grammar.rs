use vstd::prelude::*;

use crate::instruction::{
    one_register_view, set_view, shape, shape_of, two_register_view, Instruction, InstructionView,
    Opcode, Shape,
};

verus! {

/// An ASCII letter (`A`..=`Z`, `a`..=`z`).
pub open spec fn is_letter(b: u8) -> bool {
    (65 <= b && b <= 90) || (97 <= b && b <= 122)
}

/// An ASCII decimal digit (`0`..=`9`).
pub open spec fn is_digit(b: u8) -> bool {
    48 <= b && b <= 57
}

/// A byte that may follow the first letter of a register name (`_` is 95).
pub open spec fn is_name_char(b: u8) -> bool {
    is_letter(b) || is_digit(b) || b == 95
}

/// Whitespace that may separate the tokens of a line: space or tab.
pub open spec fn is_blank(b: u8) -> bool {
    b == 32 || b == 9
}

/// A register name: a letter, then letters, digits and underscores.
pub open spec fn is_register_name(s: Seq<u8>) -> bool {
    &&& s.len() > 0
    &&& is_letter(s[0])
    &&& forall|i: int| 1 <= i < s.len() ==> is_name_char(#[trigger] s[i])
}

/// The end of the run of name characters that starts at `i`.
pub open spec fn name_end(s: Seq<u8>, i: int) -> int
    decreases s.len() - i,
{
    if 0 <= i < s.len() && is_name_char(s[i]) {
        name_end(s, i + 1)
    } else {
        i
    }
}

/// The end of the run of blanks that starts at `i`.
pub open spec fn blank_end(s: Seq<u8>, i: int) -> int
    decreases s.len() - i,
{
    if 0 <= i < s.len() && is_blank(s[i]) {
        blank_end(s, i + 1)
    } else {
        i
    }
}

/// The end of the run of digits that starts at `i`.
pub open spec fn digit_end(s: Seq<u8>, i: int) -> int
    decreases s.len() - i,
{
    if 0 <= i < s.len() && is_digit(s[i]) {
        digit_end(s, i + 1)
    } else {
        i
    }
}

/// The end of the longest register name that starts at `i`, if one does.
pub open spec fn register_end(s: Seq<u8>, i: int) -> Option<int> {
    if 0 <= i < s.len() && is_letter(s[i]) {
        Some(name_end(s, i + 1))
    } else {
        None
    }
}

/// The number that a string of decimal digits denotes.
pub open spec fn digits_value(d: Seq<u8>) -> int
    decreases d.len(),
{
    if d.len() == 0 {
        0
    } else {
        digits_value(d.drop_last()) * 10 + (d.last() - 48)
    }
}

/// The integer literal at `i` (an optional sign, then digits, all of them read)
/// and where it ends; `-` is 45 and `+` is 43. None if there are no digits or the value is not an `i32`.
pub open spec fn literal_at(s: Seq<u8>, i: int) -> Option<(i32, int)> {
    let signed = 0 <= i < s.len() && (s[i] == 45 || s[i] == 43);
    let start = if signed { i + 1 } else { i };
    let end = digit_end(s, start);
    let magnitude = digits_value(s.subrange(start, end));
    let v = if signed && s[i] == 45 { -magnitude } else { magnitude };
    if end == start || v < i32::MIN || v > i32::MAX {
        None
    } else {
        Some((v as i32, end))
    }
}

/// The three letters `a`, `b`, `c` stand in `s` from index `p`.
pub open spec fn starts_with_word(s: Seq<u8>, p: int, a: u8, b: u8, c: u8) -> bool {
    0 <= p && p + 3 <= s.len() && s[p] == a && s[p + 1] == b && s[p + 2] == c
}

/// The opcode whose keyword stands in `s` from index `p`, if any.
pub open spec fn keyword_at(s: Seq<u8>, p: int) -> Option<Opcode> {
    if starts_with_word(s, p, 115, 101, 116) {
        Some(Opcode::Assign)
    } else if starts_with_word(s, p, 99, 112, 121) {
        Some(Opcode::Cpy)
    } else if starts_with_word(s, p, 97, 100, 100) {
        Some(Opcode::Add)
    } else if starts_with_word(s, p, 115, 117, 98) {
        Some(Opcode::Sub)
    } else if starts_with_word(s, p, 111, 117, 116) {
        Some(Opcode::Out)
    } else if starts_with_word(s, p, 106, 109, 112) {
        Some(Opcode::Jmp)
    } else if starts_with_word(s, p, 106, 119, 122) {
        Some(Opcode::Jwz)
    } else if starts_with_word(s, p, 106, 110, 122) {
        Some(Opcode::Jnz)
    } else if starts_with_word(s, p, 106, 119, 110) {
        Some(Opcode::Jwn)
    } else if starts_with_word(s, p, 106, 119, 112) {
        Some(Opcode::Jwp)
    } else if starts_with_word(s, p, 103, 116, 104) {
        Some(Opcode::Gth)
    } else if starts_with_word(s, p, 108, 116, 104) {
        Some(Opcode::Lth)
    } else if starts_with_word(s, p, 99, 104, 114) {
        Some(Opcode::Chr)
    } else {
        None
    }
}

/// The opcode whose keyword stands in `s` from index `p`, if it takes operands of shape `sh`.
pub open spec fn keyword_of_shape(s: Seq<u8>, p: int, sh: Shape) -> Option<Opcode> {
    match keyword_at(s, p) {
        Some(op) => if shape_of(op) == sh {
            Some(op)
        } else {
            None
        },
        None => None,
    }
}

/// `s` read whole as `<keyword> <register>`, blanks allowed before and after each token.
pub open spec fn one_register_form(s: Seq<u8>) -> Option<InstructionView> {
    let p = blank_end(s, 0);
    match keyword_of_shape(s, p, Shape::OneRegister) {
        None => None,
        Some(op) => {
            let i = blank_end(s, p + 3);
            match register_end(s, i) {
                None => None,
                Some(j) => if blank_end(s, j) == s.len() {
                    Some(one_register_view(op, s.subrange(i, j)))
                } else {
                    None
                },
            }
        },
    }
}

/// `s` read whole as `<keyword> <register> <value>`, blanks allowed before and after each token.
pub open spec fn register_value_form(s: Seq<u8>) -> Option<InstructionView> {
    let p = blank_end(s, 0);
    match keyword_of_shape(s, p, Shape::RegisterValue) {
        None => None,
        Some(op) => {
            let i = blank_end(s, p + 3);
            match register_end(s, i) {
                None => None,
                Some(j) => match literal_at(s, blank_end(s, j)) {
                    None => None,
                    Some((v, m)) => if blank_end(s, m) == s.len() {
                        Some(set_view(s.subrange(i, j), v))
                    } else {
                        None
                    },
                },
            }
        },
    }
}

/// `s` read whole as `<keyword> <register> <register>`, blanks allowed before and after each token.
pub open spec fn two_register_form(s: Seq<u8>) -> Option<InstructionView> {
    let p = blank_end(s, 0);
    match keyword_of_shape(s, p, Shape::TwoRegisters) {
        None => None,
        Some(op) => {
            let i = blank_end(s, p + 3);
            match register_end(s, i) {
                None => None,
                Some(j) => {
                    let k = blank_end(s, j);
                    match register_end(s, k) {
                        None => None,
                        Some(m) => if blank_end(s, m) == s.len() {
                            Some(two_register_view(op, s.subrange(i, j), s.subrange(k, m)))
                        } else {
                            None
                        },
                    }
                },
            }
        },
    }
}

/// The instruction that the line `s` holds: the first of the three forms that reads it.
pub open spec fn parse_line(s: Seq<u8>) -> Option<InstructionView> {
    if one_register_form(s) is Some {
        one_register_form(s)
    } else if register_value_form(s) is Some {
        register_value_form(s)
    } else {
        two_register_form(s)
    }
}

/// `r` is the instruction that `v` describes, or none where `v` is none.
pub open spec fn parsed_as(r: Option<Instruction>, v: Option<InstructionView>) -> bool {
    match r {
        Some(ins) => v == Some(ins@),
        None => v is None,
    }
}

fn letter(b: u8) -> (r: bool)
    ensures
        r == is_letter(b),
{
    (65 <= b && b <= 90) || (97 <= b && b <= 122)
}

fn digit(b: u8) -> (r: bool)
    ensures
        r == is_digit(b),
{
    48 <= b && b <= 57
}

fn name_char(b: u8) -> (r: bool)
    ensures
        r == is_name_char(b),
{
    letter(b) || digit(b) || b == 95
}

fn blank(b: u8) -> (r: bool)
    ensures
        r == is_blank(b),
{
    b == 32 || b == 9
}

fn skip_blanks(s: &[u8], i: usize) -> (j: usize)
    requires
        i <= s.len(),
    ensures
        j == blank_end(s@, i as int),
        i <= j <= s.len(),
{
    let mut j = i;
    while j < s.len() && blank(s[j])
        invariant
            i <= j <= s.len(),
            blank_end(s@, i as int) == blank_end(s@, j as int),
        decreases s.len() - j,
    {
        j = j + 1;
    }
    j
}

/// Where the longest register name that starts at `i` ends, if one starts there.
pub fn register(s: &[u8], i: usize) -> (r: Option<usize>)
    requires
        i <= s.len(),
    ensures
        r is Some <==> register_end(s@, i as int) is Some,
        r matches Some(j) ==> register_end(s@, i as int) == Some(j as int) && i < j <= s.len(),
{
    if i < s.len() && letter(s[i]) {
        let mut j = i + 1;
        while j < s.len() && name_char(s[j])
            invariant
                i < j <= s.len(),
                name_end(s@, i + 1) == name_end(s@, j as int),
            decreases s.len() - j,
        {
            j = j + 1;
        }
        Some(j)
    } else {
        None
    }
}

proof fn lemma_digits_value_nonnegative(d: Seq<u8>)
    requires
        forall|i: int| 0 <= i < d.len() ==> is_digit(#[trigger] d[i]),
    ensures
        digits_value(d) >= 0,
    decreases d.len(),
{
    if d.len() > 0 {
        lemma_digits_value_nonnegative(d.drop_last());
        assert(is_digit(d[d.len() - 1]));
    }
}

/// The integer literal at `i` and where it ends, as `literal_at` describes it.
fn literal(s: &[u8], i: usize) -> (r: Option<(i32, usize)>)
    requires
        i <= s.len(),
    ensures
        r is Some <==> literal_at(s@, i as int) is Some,
        r matches Some((v, e)) ==> literal_at(s@, i as int) == Some((v, e as int)) && e <= s.len(),
{
    let signed = i < s.len() && (s[i] == 45 || s[i] == 43);
    let negative = signed && s[i] == 45;
    let start = if signed { i + 1 } else { i };
    let mut j = start;
    let mut magnitude: u64 = 0;
    let mut too_large = false;
    while j < s.len() && digit(s[j])
        invariant
            start <= j <= s.len(),
            digit_end(s@, start as int) == digit_end(s@, j as int),
            forall|k: int| start <= k < j ==> is_digit(#[trigger] s@[k]),
            too_large ==> digits_value(s@.subrange(start as int, j as int)) > 2147483648,
            !too_large ==> magnitude == digits_value(s@.subrange(start as int, j as int)),
            !too_large ==> magnitude <= 2147483648,
        decreases s.len() - j,
    {
        let ghost before = s@.subrange(start as int, j as int);
        let ghost after = s@.subrange(start as int, j + 1);
        assert(after.drop_last() =~= before);
        proof {
            lemma_digits_value_nonnegative(before);
        }
        let d = (s[j] - 48) as u64;
        if !too_large {
            let m = magnitude * 10 + d;
            if m > 2147483648 {
                too_large = true;
            } else {
                magnitude = m;
            }
        }
        j = j + 1;
    }
    if j == start || too_large {
        None
    } else if negative {
        Some(((0 - magnitude as i64) as i32, j))
    } else if magnitude > 2147483647 {
        None
    } else {
        Some((magnitude as i32, j))
    }
}

fn word(s: &[u8], p: usize, a: u8, b: u8, c: u8) -> (r: bool)
    ensures
        r == starts_with_word(s@, p as int, a, b, c),
{
    p < s.len() && s.len() - p >= 3 && s[p] == a && s[p + 1] == b && s[p + 2] == c
}

/// The opcode whose keyword stands in `s` from index `p`, if any.
pub fn keyword(s: &[u8], p: usize) -> (r: Option<Opcode>)
    ensures
        r == keyword_at(s@, p as int),
{
    if word(s, p, 115, 101, 116) {
        Some(Opcode::Assign)
    } else if word(s, p, 99, 112, 121) {
        Some(Opcode::Cpy)
    } else if word(s, p, 97, 100, 100) {
        Some(Opcode::Add)
    } else if word(s, p, 115, 117, 98) {
        Some(Opcode::Sub)
    } else if word(s, p, 111, 117, 116) {
        Some(Opcode::Out)
    } else if word(s, p, 106, 109, 112) {
        Some(Opcode::Jmp)
    } else if word(s, p, 106, 119, 122) {
        Some(Opcode::Jwz)
    } else if word(s, p, 106, 110, 122) {
        Some(Opcode::Jnz)
    } else if word(s, p, 106, 119, 110) {
        Some(Opcode::Jwn)
    } else if word(s, p, 106, 119, 112) {
        Some(Opcode::Jwp)
    } else if word(s, p, 103, 116, 104) {
        Some(Opcode::Gth)
    } else if word(s, p, 108, 116, 104) {
        Some(Opcode::Lth)
    } else if word(s, p, 99, 104, 114) {
        Some(Opcode::Chr)
    } else {
        None
    }
}

fn keyword_with_shape(s: &[u8], p: usize, sh: Shape) -> (r: Option<Opcode>)
    ensures
        r == keyword_of_shape(s@, p as int, sh),
{
    match keyword(s, p) {
        Some(op) => if shape(op) == sh {
            Some(op)
        } else {
            None
        },
        None => None,
    }
}

/// The keyword of a `<keyword> <register>` line at index `p`: `out`, `jmp` or `chr`.
pub fn one_register_keyword(s: &[u8], p: usize) -> (r: Option<Opcode>)
    ensures
        r == keyword_of_shape(s@, p as int, Shape::OneRegister),
{
    keyword_with_shape(s, p, Shape::OneRegister)
}

/// The keyword of a `<keyword> <register> <value>` line at index `p`: `set`.
pub fn one_register_one_value_keyword(s: &[u8], p: usize) -> (r: Option<Opcode>)
    ensures
        r == keyword_of_shape(s@, p as int, Shape::RegisterValue),
{
    keyword_with_shape(s, p, Shape::RegisterValue)
}

/// The keyword of a `<keyword> <register> <register>` line at index `p`.
pub fn two_register_keyword(s: &[u8], p: usize) -> (r: Option<Opcode>)
    ensures
        r == keyword_of_shape(s@, p as int, Shape::TwoRegisters),
{
    keyword_with_shape(s, p, Shape::TwoRegisters)
}

fn copy_range(s: &[u8], i: usize, j: usize) -> (r: Vec<u8>)
    requires
        i <= j <= s.len(),
    ensures
        r@ == s@.subrange(i as int, j as int),
{
    let mut r: Vec<u8> = Vec::new();
    let mut k = i;
    while k < j
        invariant
            i <= k <= j <= s.len(),
            r@ == s@.subrange(i as int, k as int),
        decreases j - k,
    {
        r.push(s[k]);
        k = k + 1;
        assert(r@ =~= s@.subrange(i as int, k as int));
    }
    r
}

/// Reads the whole of `s` as `<keyword> <register>`, blanks allowed before and after
/// each token.
pub fn one_register_instruction(s: &[u8]) -> (r: Option<Instruction>)
    ensures
        parsed_as(r, one_register_form(s@)),
{
    let p = skip_blanks(s, 0);
    let op = match one_register_keyword(s, p) {
        Some(op) => op,
        None => return None,
    };
    let i = skip_blanks(s, p + 3);
    let j = match register(s, i) {
        Some(j) => j,
        None => return None,
    };
    if skip_blanks(s, j) != s.len() {
        return None;
    }
    Some(Instruction::from_one_register(op, copy_range(s, i, j)))
}

/// Reads the whole of `s` as `<keyword> <register> <value>`, blanks allowed before and after
/// each token.
pub fn one_register_one_value_instruction(s: &[u8]) -> (r: Option<Instruction>)
    ensures
        parsed_as(r, register_value_form(s@)),
{
    let p = skip_blanks(s, 0);
    if one_register_one_value_keyword(s, p).is_none() {
        return None;
    }
    let i = skip_blanks(s, p + 3);
    let j = match register(s, i) {
        Some(j) => j,
        None => return None,
    };
    let k = skip_blanks(s, j);
    let (v, m) = match literal(s, k) {
        Some(p) => p,
        None => return None,
    };
    if skip_blanks(s, m) != s.len() {
        return None;
    }
    Some(Instruction::from_register_value(copy_range(s, i, j), v))
}

/// Reads the whole of `s` as `<keyword> <register> <register>`, blanks allowed before and after
/// each token.
pub fn two_register_instruction(s: &[u8]) -> (r: Option<Instruction>)
    ensures
        parsed_as(r, two_register_form(s@)),
{
    let p = skip_blanks(s, 0);
    let op = match two_register_keyword(s, p) {
        Some(op) => op,
        None => return None,
    };
    let i = skip_blanks(s, p + 3);
    let j = match register(s, i) {
        Some(j) => j,
        None => return None,
    };
    let k = skip_blanks(s, j);
    let m = match register(s, k) {
        Some(m) => m,
        None => return None,
    };
    if skip_blanks(s, m) != s.len() {
        return None;
    }
    Some(Instruction::from_two_registers(op, copy_range(s, i, j), copy_range(s, k, m)))
}

/// Reads one line of a program: the instruction it holds, or none if it is not one.
pub fn instruction(s: &[u8]) -> (r: Option<Instruction>)
    ensures
        parsed_as(r, parse_line(s@)),
{
    let one = one_register_instruction(s);
    if one.is_some() {
        return one;
    }
    let with_value = one_register_one_value_instruction(s);
    if with_value.is_some() {
        return with_value;
    }
    two_register_instruction(s)
}

proof fn lemma_name_run(s: Seq<u8>, i: int)
    requires
        0 <= i <= s.len(),
    ensures
        name_end(s, i) == s.len() <==> forall|k: int| i <= k < s.len() ==> is_name_char(#[trigger] s[k]),
    decreases s.len() - i,
{
    if i < s.len() {
        lemma_name_run(s, i + 1);
        if !is_name_char(s[i]) {
            assert(name_end(s, i) == i);
        }
    }
}

/// The register grammar reads the whole of `s` as one register name exactly when
/// `s` is a letter followed by letters, digits and underscores.
pub proof fn lemma_register_grammar(s: Seq<u8>)
    ensures
        register_end(s, 0) == Some(s.len() as int) <==> is_register_name(s),
{
    if s.len() > 0 {
        lemma_name_run(s, 1);
    }
}

/// A line that is not an instruction: its number (from 1) and its text.
#[derive(Clone, Debug, PartialEq, Eq)]
pub struct SyntaxError {
    pub line: usize,
    pub text: Vec<u8>,
}

/// Reads every line of a program, stopping at the first that is not an instruction.
pub fn parse_program(lines: &Vec<Vec<u8>>) -> (r: Result<Vec<Instruction>, SyntaxError>)
    ensures
        match r {
            Ok(program) => {
                &&& program.len() == lines.len()
                &&& forall|i: int| 0 <= i < lines.len() ==> parse_line(#[trigger] lines[i]@) == Some(program[i]@)
            },
            Err(e) => {
                &&& 1 <= e.line <= lines.len()
                &&& e.text@ == lines[e.line - 1]@
                &&& parse_line(lines[e.line - 1]@) is None
                &&& forall|i: int| 0 <= i < e.line - 1 ==> parse_line(#[trigger] lines[i]@) is Some
            },
        },
{
    let mut program: Vec<Instruction> = Vec::new();
    let mut n: usize = 0;
    while n < lines.len()
        invariant
            n <= lines.len(),
            program.len() == n,
            forall|i: int| 0 <= i < n ==> parse_line(#[trigger] lines[i]@) == Some(program[i]@),
        decreases lines.len() - n,
    {
        match instruction(lines[n].as_slice()) {
            Some(ins) => {
                program.push(ins);
            },
            None => {
                return Err(SyntaxError { line: n + 1, text: lines[n].clone() });
            },
        }
        n = n + 1;
    }
    Ok(program)
}

} // verus!
