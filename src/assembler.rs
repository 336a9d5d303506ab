//! The assembler's core: evaluation of immediate expressions, operand-size
//! resolution, and the encoding of a parsed instruction through the
//! instruction table.
//!
//! Text is parsed elsewhere into the values here: labels are numbered, and
//! an instruction arrives as its mnemonic, its optional condition and size
//! modifiers, and its operands.
use vstd::prelude::*;

use crate::bits::{sign_ext, zero_ext};
use crate::machine::{Condition, Size};
use crate::schema::{encode, encode_spec, layout, Opcode, OPCODE_COUNT, opcode_at, opcode_at_index};

verus! {

/// Why a source cannot be assembled.
#[derive(Debug, Clone, Copy, PartialEq, Eq, Structural)]
pub enum AsmError {
    UnknownLabel,
    DivisionByZero,
    DuplicateLabel,
    MisalignedRelative,
    IncompatibleRegisterSizes,
    UnknownInstruction,
    ImageTooLarge,
}

/// A register operand as written: its number (below 16) and its optional
/// size suffix.
#[derive(Debug, Clone, Copy, PartialEq, Eq, Structural)]
pub struct Register {
    pub id: u8,
    pub size: Option<Size>,
}

/// An evaluated instruction argument.
#[derive(Debug, Clone, Copy, PartialEq, Eq, Structural)]
pub enum Argument {
    Register(Register),
    Immediate(u64),
}

impl Argument {
    /// Applies `f` to an immediate; a register stays as it is.
    pub fn map_immediate<F: FnOnce(u64) -> u64>(self, f: F) -> (r: Argument)
        requires
            self matches Argument::Immediate(imm) ==> f.requires((imm,)),
        ensures
            match (self, r) {
                (Argument::Immediate(imm), Argument::Immediate(v)) => f.ensures((imm,), v),
                (Argument::Register(a), Argument::Register(b)) => a == b,
                _ => false,
            },
    {
        match self {
            Argument::Immediate(imm) => Argument::Immediate(f(imm)),
            _ => self,
        }
    }

    /// Applies `f` to a register; an immediate stays as it is.
    pub fn map_register<F: FnOnce(Register) -> Register>(self, f: F) -> (r: Argument)
        requires
            self matches Argument::Register(reg) ==> f.requires((reg,)),
        ensures
            match (self, r) {
                (Argument::Register(reg), Argument::Register(v)) => f.ensures((reg,), v),
                (Argument::Immediate(a), Argument::Immediate(b)) => a == b,
                _ => false,
            },
    {
        match self {
            Argument::Register(reg) => Argument::Register(f(reg)),
            _ => self,
        }
    }

    /// Applies `map_reg` to a register or `map_imm` to an immediate.
    pub fn map<F: FnOnce(Register) -> Register, G: FnOnce(u64) -> u64>(self, map_reg: F, map_imm: G) -> (r: Argument)
        requires
            self matches Argument::Register(reg) ==> map_reg.requires((reg,)),
            self matches Argument::Immediate(imm) ==> map_imm.requires((imm,)),
        ensures
            match (self, r) {
                (Argument::Register(reg), Argument::Register(v)) => map_reg.ensures((reg,), v),
                (Argument::Immediate(imm), Argument::Immediate(v)) => map_imm.ensures((imm,), v),
                _ => false,
            },
    {
        match self {
            Argument::Register(reg) => Argument::Register(map_reg(reg)),
            Argument::Immediate(imm) => Argument::Immediate(map_imm(imm)),
        }
    }
}

/// Binary operators of immediate expressions.
#[derive(Debug, Clone, Copy, PartialEq, Eq, Structural)]
pub enum BinaryOp {
    Or,
    Xor,
    And,
    ShiftLeft,
    ShiftRightLogical,
    ShiftRightArithmetic,
    Add,
    Sub,
    Mul,
    Div,
    Rem,
}

/// An immediate expression.
#[derive(Debug)]
pub enum Expr {
    Literal(u64),
    /// The address of the label with this number.
    Label(usize),
    /// The current address, `.`.
    Current,
    Neg(Box<Expr>),
    Not(Box<Expr>),
    Binary(BinaryOp, Box<Expr>, Box<Expr>),
}

/// `lhs op rhs` in wrapping 64-bit arithmetic; shifts by 64 or more give
/// zero, or all sign bits for the arithmetic one.
pub open spec fn binary_spec(op: BinaryOp, lhs: u64, rhs: u64) -> Result<u64, AsmError> {
    match op {
        BinaryOp::Or => Ok(lhs | rhs),
        BinaryOp::Xor => Ok(lhs ^ rhs),
        BinaryOp::And => Ok(lhs & rhs),
        BinaryOp::ShiftLeft => Ok(if rhs >= 64 { 0 } else { lhs << rhs }),
        BinaryOp::ShiftRightLogical => Ok(if rhs >= 64 { 0 } else { lhs >> rhs }),
        BinaryOp::ShiftRightArithmetic => {
            let neg = lhs >= 0x8000_0000_0000_0000;
            Ok(if rhs >= 64 {
                if neg { 0xffff_ffff_ffff_ffff } else { 0 }
            } else {
                crate::alu::shift_right_fill(lhs, rhs, neg)
            })
        },
        BinaryOp::Add => Ok(lhs.wrapping_add(rhs)),
        BinaryOp::Sub => Ok(lhs.wrapping_sub(rhs)),
        BinaryOp::Mul => Ok(lhs.wrapping_mul(rhs)),
        BinaryOp::Div => if rhs == 0 { Err(AsmError::DivisionByZero) } else { Ok(lhs / rhs) },
        BinaryOp::Rem => if rhs == 0 { Err(AsmError::DivisionByZero) } else { Ok(lhs % rhs) },
    }
}

/// The value of `e` with the given label addresses (`None` for a label not
/// known yet) at address `current`; the first error met, left operand
/// first.
pub open spec fn eval_spec(e: Expr, labels: Seq<Option<u64>>, current: u64) -> Result<u64, AsmError>
    decreases e,
{
    match e {
        Expr::Literal(v) => Ok(v),
        Expr::Label(i) => if i < labels.len() && labels[i as int].is_some() {
            Ok(labels[i as int].unwrap())
        } else {
            Err(AsmError::UnknownLabel)
        },
        Expr::Current => Ok(current),
        Expr::Neg(x) => match eval_spec(*x, labels, current) {
            Ok(v) => Ok(0u64.wrapping_sub(v)),
            Err(err) => Err(err),
        },
        Expr::Not(x) => match eval_spec(*x, labels, current) {
            Ok(v) => Ok(!v),
            Err(err) => Err(err),
        },
        Expr::Binary(op, a, b) => match eval_spec(*a, labels, current) {
            Err(err) => Err(err),
            Ok(x) => match eval_spec(*b, labels, current) {
                Err(err) => Err(err),
                Ok(y) => binary_spec(op, x, y),
            },
        },
    }
}

fn binary(op: BinaryOp, lhs: u64, rhs: u64) -> (r: Result<u64, AsmError>)
    ensures
        r == binary_spec(op, lhs, rhs),
{
    match op {
        BinaryOp::Or => Ok(lhs | rhs),
        BinaryOp::Xor => Ok(lhs ^ rhs),
        BinaryOp::And => Ok(lhs & rhs),
        BinaryOp::ShiftLeft => Ok(if rhs >= 64 { 0 } else { lhs << rhs }),
        BinaryOp::ShiftRightLogical => Ok(if rhs >= 64 { 0 } else { lhs >> rhs }),
        BinaryOp::ShiftRightArithmetic => {
            let neg = lhs >= 0x8000_0000_0000_0000;
            Ok(if rhs >= 64 {
                if neg { 0xffff_ffff_ffff_ffff } else { 0 }
            } else if neg {
                !((!lhs) >> rhs)
            } else {
                lhs >> rhs
            })
        },
        BinaryOp::Add => Ok(lhs.wrapping_add(rhs)),
        BinaryOp::Sub => Ok(lhs.wrapping_sub(rhs)),
        BinaryOp::Mul => Ok(lhs.wrapping_mul(rhs)),
        BinaryOp::Div => if rhs == 0 { Err(AsmError::DivisionByZero) } else { Ok(lhs / rhs) },
        BinaryOp::Rem => if rhs == 0 { Err(AsmError::DivisionByZero) } else { Ok(lhs % rhs) },
    }
}

/// Evaluates an immediate expression.
pub fn evaluate_immediate(e: &Expr, labels: &Vec<Option<u64>>, current: u64) -> (r: Result<u64, AsmError>)
    ensures
        r == eval_spec(*e, labels@, current),
    decreases e,
{
    match e {
        Expr::Literal(v) => Ok(*v),
        Expr::Label(i) => if *i < labels.len() {
            match labels[*i] {
                Some(v) => Ok(v),
                None => Err(AsmError::UnknownLabel),
            }
        } else {
            Err(AsmError::UnknownLabel)
        },
        Expr::Current => Ok(current),
        Expr::Neg(x) => match evaluate_immediate(x, labels, current) {
            Ok(v) => Ok(0u64.wrapping_sub(v)),
            Err(err) => Err(err),
        },
        Expr::Not(x) => match evaluate_immediate(x, labels, current) {
            Ok(v) => Ok(!v),
            Err(err) => Err(err),
        },
        Expr::Binary(op, a, b) => match evaluate_immediate(a, labels, current) {
            Err(err) => Err(err),
            Ok(x) => match evaluate_immediate(b, labels, current) {
                Err(err) => Err(err),
                Ok(y) => binary(*op, x, y),
            },
        },
    }
}

/// The value of a digit character, in any radix up to 16.
pub open spec fn digit_value(c: char) -> Option<nat> {
    if '0' <= c && c <= '9' {
        Some((c as u32 - '0' as u32) as nat)
    } else if 'a' <= c && c <= 'f' {
        Some((c as u32 - 'a' as u32 + 10) as nat)
    } else if 'A' <= c && c <= 'F' {
        Some((c as u32 - 'A' as u32 + 10) as nat)
    } else {
        None
    }
}

/// The value of digits in `radix`, underscores ignored; `None` where a
/// character is neither an underscore nor a digit below the radix.
pub open spec fn digits_value(s: Seq<char>, radix: nat) -> Option<nat>
    decreases s.len(),
{
    if s.len() == 0 {
        Some(0)
    } else {
        match digits_value(s.drop_last(), radix) {
            None => None,
            Some(v) => if s.last() == '_' {
                Some(v)
            } else {
                match digit_value(s.last()) {
                    Some(d) => if d < radix {
                        Some(v * radix + d)
                    } else {
                        None
                    },
                    None => None,
                }
            },
        }
    }
}

/// Whether `s` holds a character other than an underscore.
pub open spec fn has_digit(s: Seq<char>) -> bool {
    exists|i: int| 0 <= i < s.len() && s[i] != '_'
}

/// The radix that a literal's prefix selects, and where its digits start.
pub open spec fn literal_radix(s: Seq<char>) -> (nat, int) {
    if s.len() >= 2 && s[0] == '0' && (s[1] == 'b' || s[1] == 'B') {
        (2, 2)
    } else if s.len() >= 2 && s[0] == '0' && (s[1] == 'o' || s[1] == 'O') {
        (8, 2)
    } else if s.len() >= 2 && s[0] == '0' && (s[1] == 'd' || s[1] == 'D') {
        (10, 2)
    } else if s.len() >= 2 && s[0] == '0' && (s[1] == 'x' || s[1] == 'X') {
        (16, 2)
    } else {
        (10, 0)
    }
}

/// The value of an integer literal: an optional radix prefix (`0b`, `0o`,
/// `0d`, `0x`), then digits of that radix with underscores ignored. `None`
/// where there is no digit, a character is not a digit of the radix, or the
/// value does not fit in 64 bits.
pub open spec fn integer_value(s: Seq<char>) -> Option<u64> {
    let (radix, start) = literal_radix(s);
    let body = s.subrange(start, s.len() as int);
    if !has_digit(body) {
        None
    } else {
        match digits_value(body, radix) {
            Some(v) => if v <= u64::MAX {
                Some(v as u64)
            } else {
                None
            },
            None => None,
        }
    }
}

/// A prefix of valid digits has a value no larger than the whole.
proof fn lemma_digits_prefix(s: Seq<char>, radix: nat, k: int)
    requires
        0 <= k <= s.len(),
        radix >= 1,
    ensures
        digits_value(s, radix) matches Some(w) ==> (digits_value(s.subrange(0, k), radix) matches Some(v) && v <= w),
    decreases s.len() - k,
{
    if k < s.len() {
        lemma_digits_prefix(s, radix, k + 1);
        let p = s.subrange(0, k + 1);
        assert(p.drop_last() =~= s.subrange(0, k));
        if let Some(v) = digits_value(s.subrange(0, k), radix) {
            if let Some(d) = digit_value(p.last()) {
                assert(v * radix + d >= v) by (nonlinear_arith)
                    requires
                        radix >= 1,
                ;
            }
        }
    } else {
        assert(s.subrange(0, k) =~= s);
    }
}

fn digit_of(c: char) -> (r: Option<u64>)
    ensures
        r matches Some(d) ==> digit_value(c) == Some(d as nat),
        r is None ==> digit_value(c) is None,
{
    if '0' <= c && c <= '9' {
        Some((c as u32 - '0' as u32) as u64)
    } else if 'a' <= c && c <= 'f' {
        Some((c as u32 - 'a' as u32 + 10) as u64)
    } else if 'A' <= c && c <= 'F' {
        Some((c as u32 - 'A' as u32 + 10) as u64)
    } else {
        None
    }
}

/// Reads an integer literal.
pub fn parse_integer(text: &str) -> (r: Option<u64>)
    ensures
        r == integer_value(text@),
{
    let n = text.unicode_len();
    let ghost s = text@;
    let mut radix: u64 = 10;
    let mut start: usize = 0;
    if n >= 2 && text.get_char(0) == '0' {
        let c = text.get_char(1);
        if c == 'b' || c == 'B' {
            radix = 2;
            start = 2;
        } else if c == 'o' || c == 'O' {
            radix = 8;
            start = 2;
        } else if c == 'd' || c == 'D' {
            radix = 10;
            start = 2;
        } else if c == 'x' || c == 'X' {
            radix = 16;
            start = 2;
        }
    }
    assert(literal_radix(s) == (radix as nat, start as int));
    let ghost body = s.subrange(start as int, n as int);
    let mut acc: u64 = 0;
    let mut seen = false;
    let mut i: usize = start;
    while i < n
        invariant
            start <= i <= n,
            n == s.len(),
            s == text@,
            2 <= radix <= 16,
            literal_radix(s) == (radix as nat, start as int),
            body == s.subrange(start as int, n as int),
            digits_value(body.subrange(0, i - start), radix as nat) == Some(acc as nat),
            seen == has_digit(body.subrange(0, i - start)),
        decreases n - i,
    {
        let c = text.get_char(i);
        let ghost prev = body.subrange(0, i - start);
        let ghost next = body.subrange(0, i - start + 1);
        assert(next.drop_last() =~= prev);
        assert(next.last() == c);
        if c != '_' {
            assert(next[i - start] == c);
            match digit_of(c) {
                Some(d) if d < radix => {
                    let m = acc.checked_mul(radix);
                    let v = match m {
                        Some(m) => m.checked_add(d),
                        None => None,
                    };
                    match v {
                        Some(v) => {
                            acc = v;
                        },
                        None => {
                            proof {
                                lemma_digits_prefix(body, radix as nat, i - start + 1);
                                assert(body.subrange(0, i - start + 1) =~= next);
                                assert(digits_value(next, radix as nat) == Some(acc as nat * radix as nat + d as nat));
                            }
                            return None;
                        },
                    }
                },
                _ => {
                    proof {
                        lemma_digits_prefix(body, radix as nat, i - start + 1);
                        assert(body.subrange(0, i - start + 1) =~= next);
                        assert(digits_value(next, radix as nat) is None);
                    }
                    return None;
                },
            }
            seen = true;
        }
        assert(seen == has_digit(next)) by {
            if has_digit(next) && !has_digit(prev) {
                let j = choose|j: int| 0 <= j < next.len() && next[j] != '_';
                assert(j == next.len() - 1);
            }
            if has_digit(prev) {
                let j = choose|j: int| 0 <= j < prev.len() && prev[j] != '_';
                assert(next[j] == prev[j]);
            }
        }
        i = i + 1;
    }
    assert(body.subrange(0, n - start) =~= body);
    if seen {
        Some(acc)
    } else {
        None
    }
}

/// The machine-register number named by `name`, for the names that
/// expressions may use.
pub open spec fn machine_register_number(name: Seq<char>) -> Option<u64> {
    if name == seq!['f', 'l', 'a', 'g', 's'] {
        Some(0)
    } else if name == seq!['e', 'l', 'r'] {
        Some(1)
    } else if name == seq!['e', 's', 'p'] {
        Some(2)
    } else if name == seq!['e', 'f', 'l', 'a', 'g', 's'] {
        Some(3)
    } else if name == seq!['e', 'i', 'n', 'f', 'o'] {
        Some(4)
    } else if name == seq!['e', 'a', 'd', 'd', 'r'] {
        Some(5)
    } else if name == seq!['e', 'v', 't', 'a', 'b', 'l', 'e'] {
        Some(6)
    } else if name == seq!['e', 'c', 't', 'a', 'b', 'l', 'e'] {
        Some(7)
    } else {
        None
    }
}

fn same_chars(s: &str, n: usize, cs: &[char]) -> (r: bool)
    requires
        n == s@.len(),
    ensures
        r == (s@ == cs@),
{
    if n != cs.len() {
        return false;
    }
    let mut i: usize = 0;
    while i < n
        invariant
            i <= n,
            n == s@.len(),
            n == cs@.len(),
            forall|k: int| 0 <= k < i ==> s@[k] == cs@[k],
        decreases n - i,
    {
        if s.get_char(i) != cs[i] {
            return false;
        }
        i = i + 1;
    }
    assert(s@ =~= cs@);
    true
}

/// The number of the machine register named `mreg`; `None` for any other
/// name.
pub fn parse_machine_register(mreg: &str) -> (r: Option<u64>)
    ensures
        r == machine_register_number(mreg@),
{
    let n = mreg.unicode_len();
    if same_chars(mreg, n, &['f', 'l', 'a', 'g', 's']) {
        Some(0)
    } else if same_chars(mreg, n, &['e', 'l', 'r']) {
        Some(1)
    } else if same_chars(mreg, n, &['e', 's', 'p']) {
        Some(2)
    } else if same_chars(mreg, n, &['e', 'f', 'l', 'a', 'g', 's']) {
        Some(3)
    } else if same_chars(mreg, n, &['e', 'i', 'n', 'f', 'o']) {
        Some(4)
    } else if same_chars(mreg, n, &['e', 'a', 'd', 'd', 'r']) {
        Some(5)
    } else if same_chars(mreg, n, &['e', 'v', 't', 'a', 'b', 'l', 'e']) {
        Some(6)
    } else if same_chars(mreg, n, &['e', 'c', 't', 'a', 'b', 'l', 'e']) {
        Some(7)
    } else {
        None
    }
}

/// The size that a size suffix names.
pub open spec fn size_named(name: Seq<char>) -> Option<Size> {
    if name == seq!['b'] {
        Some(Size::Byte)
    } else if name == seq!['d'] {
        Some(Size::DoubleByte)
    } else if name == seq!['q'] {
        Some(Size::QuadByte)
    } else if name == seq!['w'] {
        Some(Size::Word)
    } else {
        None
    }
}

/// Reads a size suffix: `b`, `d`, `q` or `w`.
pub fn parse_size(size: &str) -> (r: Option<Size>)
    ensures
        r == size_named(size@),
{
    if size.unicode_len() != 1 {
        return None;
    }
    let c = size.get_char(0);
    proof {
        assert(size@ =~= seq![c]);
    }
    if c == 'b' {
        Some(Size::Byte)
    } else if c == 'd' {
        Some(Size::DoubleByte)
    } else if c == 'q' {
        Some(Size::QuadByte)
    } else if c == 'w' {
        Some(Size::Word)
    } else {
        None
    }
}

/// The condition that a condition suffix names; the assembly language
/// writes the eight flag tests.
pub open spec fn condition_named(name: Seq<char>) -> Option<Condition> {
    if name == seq!['c'] {
        Some(Condition::C)
    } else if name == seq!['n', 'c'] {
        Some(Condition::NC)
    } else if name == seq!['z'] {
        Some(Condition::Z)
    } else if name == seq!['n', 'z'] {
        Some(Condition::NZ)
    } else if name == seq!['o'] {
        Some(Condition::O)
    } else if name == seq!['n', 'o'] {
        Some(Condition::NO)
    } else if name == seq!['s'] {
        Some(Condition::S)
    } else if name == seq!['n', 's'] {
        Some(Condition::NS)
    } else {
        None
    }
}

/// Reads a condition suffix.
pub fn parse_condition(condition: &str) -> (r: Option<Condition>)
    ensures
        r == condition_named(condition@),
{
    let n = condition.unicode_len();
    if n == 1 {
        let c = condition.get_char(0);
        proof {
            assert(condition@ =~= seq![c]);
        }
        if c == 'c' {
            Some(Condition::C)
        } else if c == 'z' {
            Some(Condition::Z)
        } else if c == 'o' {
            Some(Condition::O)
        } else if c == 's' {
            Some(Condition::S)
        } else {
            None
        }
    } else if n == 2 && condition.get_char(0) == 'n' {
        let c = condition.get_char(1);
        proof {
            assert(condition@ =~= seq!['n', c]);
        }
        if c == 'c' {
            Some(Condition::NC)
        } else if c == 'z' {
            Some(Condition::NZ)
        } else if c == 'o' {
            Some(Condition::NO)
        } else if c == 's' {
            Some(Condition::NS)
        } else {
            None
        }
    } else {
        proof {
            if n == 2 {
                assert(condition@[0] != 'n');
                assert(condition@ != seq!['n', 'c']);
                assert(condition@ != seq!['n', 'z']);
                assert(condition@ != seq!['n', 'o']);
                assert(condition@ != seq!['n', 's']);
            }
        }
        None
    }
}

/// The size shared by the sized register arguments, or `operation_size`
/// where given; `Word` where none is given; an error where two disagree.
pub open spec fn common_size_spec(args: Seq<Option<Argument>>, operation_size: Option<Size>) -> Result<Size, AsmError>
    decreases args.len(),
{
    if args.len() == 0 {
        Ok(
            match operation_size {
                Some(s) => s,
                None => Size::Word,
            },
        )
    } else {
        match args[0] {
            Some(Argument::Register(Register { id: _, size: Some(rs) })) => match operation_size {
                Some(cur) => if cur != rs {
                    Err(AsmError::IncompatibleRegisterSizes)
                } else {
                    common_size_spec(args.drop_first(), operation_size)
                },
                None => common_size_spec(args.drop_first(), Some(rs)),
            },
            _ => common_size_spec(args.drop_first(), operation_size),
        }
    }
}

/// The operation size implied by the arguments' register sizes and the
/// instruction's size modifier.
pub fn common_register_size(arguments: &Vec<Option<Argument>>, operation_size: Option<Size>) -> (r: Result<Size, AsmError>)
    ensures
        r == common_size_spec(arguments@, operation_size),
{
    let mut cur = operation_size;
    let mut i: usize = 0;
    assert(arguments@.subrange(0, arguments@.len() as int) =~= arguments@);
    while i < arguments.len()
        invariant
            i <= arguments@.len(),
            common_size_spec(arguments@, operation_size) == common_size_spec(arguments@.subrange(i as int, arguments@.len() as int), cur),
        decreases arguments@.len() - i,
    {
        assert(arguments@.subrange(i as int, arguments@.len() as int).drop_first() =~= arguments@.subrange(i + 1, arguments@.len() as int));
        match arguments[i] {
            Some(Argument::Register(Register { id: _, size: Some(rs) })) => match cur {
                Some(c) => if c != rs {
                    return Err(AsmError::IncompatibleRegisterSizes);
                },
                None => {
                    cur = Some(rs);
                },
            },
            _ => {},
        }
        i = i + 1;
    }
    match cur {
        Some(s) => Ok(s),
        None => Ok(Size::Word),
    }
}

/// Instruction names of the assembly language.
#[derive(Debug, Clone, Copy, PartialEq, Eq, Structural)]
pub enum Mnemonic {
    Pushs,
    Pushp,
    Pops,
    Popp,
    Lds,
    Ldp,
    Sts,
    Stp,
    Ldi,
    Ldr,
    Copy,
    Add,
    Sub,
    Mul,
    Div,
    And,
    Or,
    Xor,
    Shl,
    Shr,
    Rot,
    Neg,
    Bswap,
    Jmpa,
    Jmpr,
    Cjmpa,
    Cjmpr,
    Calla,
    Callr,
    Ret,
    Eret,
    Udf,
    Dbg,
    Exc,
    Nop,
    Ldm,
    Stm,
}

/// What a source operand may be, and how it becomes a field value.
#[derive(Debug, Clone, Copy, PartialEq, Eq, Structural)]
pub enum SlotKind {
    /// A register.
    Reg,
    /// A register or `null`.
    NullableReg,
    /// An immediate cut to the given width.
    Imm(u32),
    /// A target address, encoded as the number of instructions from the next
    /// one, cut to the given width.
    Rel(u32),
    /// A target address, encoded as the number of bytes from the next
    /// instruction, cut to the given width.
    ByteRel(u32),
    /// An immediate flag.
    Bool,
}

/// A source operand position: the field it fills, what it may be, and
/// whether it may be left out (its value is then 0).
#[derive(Debug, Clone, Copy, PartialEq, Eq, Structural)]
pub struct Slot {
    pub field: usize,
    pub kind: SlotKind,
    pub optional: bool,
}

/// Whether an instruction takes a condition modifier.
#[derive(Debug, Clone, Copy, PartialEq, Eq, Structural)]
pub enum CondMode {
    Absent,
    Optional,
    Required,
}

/// How the size fields of an instruction are filled.
#[derive(Debug, Clone, Copy, PartialEq, Eq, Structural)]
pub enum SizeRule {
    /// No size field.
    NoSize,
    /// One size field: the common size of all register operands and the
    /// size modifier.
    Common(usize),
    /// A source size from two register operands and a destination size
    /// from a third.
    Split { src_field: usize, src_a: usize, src_b: usize, dst_field: usize, dst_slot: usize },
}

/// The source form of a table entry.
pub struct Syntax {
    pub mnemonic: Mnemonic,
    pub condition: CondMode,
    pub cond_field: Option<usize>,
    pub size: SizeRule,
    pub slots: Seq<Slot>,
}

/// The source form of each entry of the instruction table.
pub open spec fn syntax(op: Opcode) -> Syntax {
    match op {
        Opcode::Pushs => Syntax { mnemonic: Mnemonic::Pushs, condition: CondMode::Absent, cond_field: None, size: SizeRule::Common(0), slots: seq![Slot { field: 1, kind: SlotKind::NullableReg, optional: false }] },
        Opcode::Pushp => Syntax { mnemonic: Mnemonic::Pushp, condition: CondMode::Absent, cond_field: None, size: SizeRule::Common(0), slots: seq![Slot { field: 1, kind: SlotKind::NullableReg, optional: false }, Slot { field: 2, kind: SlotKind::NullableReg, optional: false }] },
        Opcode::Pops => Syntax { mnemonic: Mnemonic::Pops, condition: CondMode::Absent, cond_field: None, size: SizeRule::Common(0), slots: seq![Slot { field: 1, kind: SlotKind::NullableReg, optional: false }] },
        Opcode::Popp => Syntax { mnemonic: Mnemonic::Popp, condition: CondMode::Absent, cond_field: None, size: SizeRule::Common(0), slots: seq![Slot { field: 1, kind: SlotKind::NullableReg, optional: false }, Slot { field: 2, kind: SlotKind::NullableReg, optional: false }] },
        Opcode::Lds => Syntax { mnemonic: Mnemonic::Lds, condition: CondMode::Absent, cond_field: None, size: SizeRule::Common(0), slots: seq![Slot { field: 1, kind: SlotKind::Reg, optional: false }, Slot { field: 2, kind: SlotKind::Reg, optional: false }] },
        Opcode::Ldp => Syntax { mnemonic: Mnemonic::Ldp, condition: CondMode::Absent, cond_field: None, size: SizeRule::Common(0), slots: seq![Slot { field: 1, kind: SlotKind::Reg, optional: false }, Slot { field: 2, kind: SlotKind::Reg, optional: false }, Slot { field: 3, kind: SlotKind::Reg, optional: false }] },
        Opcode::Sts => Syntax { mnemonic: Mnemonic::Sts, condition: CondMode::Absent, cond_field: None, size: SizeRule::Common(0), slots: seq![Slot { field: 1, kind: SlotKind::Reg, optional: false }, Slot { field: 2, kind: SlotKind::Reg, optional: false }] },
        Opcode::Stp => Syntax { mnemonic: Mnemonic::Stp, condition: CondMode::Absent, cond_field: None, size: SizeRule::Common(0), slots: seq![Slot { field: 1, kind: SlotKind::Reg, optional: false }, Slot { field: 2, kind: SlotKind::Reg, optional: false }, Slot { field: 3, kind: SlotKind::Reg, optional: false }] },
        Opcode::Ldi => Syntax { mnemonic: Mnemonic::Ldi, condition: CondMode::Absent, cond_field: None, size: SizeRule::NoSize, slots: seq![Slot { field: 0, kind: SlotKind::Reg, optional: false }, Slot { field: 1, kind: SlotKind::Imm(16), optional: false }, Slot { field: 2, kind: SlotKind::Imm(6), optional: true }, Slot { field: 3, kind: SlotKind::Imm(2), optional: true }] },
        Opcode::Ldr => Syntax { mnemonic: Mnemonic::Ldr, condition: CondMode::Absent, cond_field: None, size: SizeRule::NoSize, slots: seq![Slot { field: 0, kind: SlotKind::Reg, optional: false }, Slot { field: 1, kind: SlotKind::ByteRel(22), optional: false }] },
        Opcode::Copy => Syntax { mnemonic: Mnemonic::Copy, condition: CondMode::Absent, cond_field: None, size: SizeRule::Common(0), slots: seq![Slot { field: 1, kind: SlotKind::Reg, optional: false }, Slot { field: 2, kind: SlotKind::Reg, optional: false }] },
        Opcode::AddReg => Syntax { mnemonic: Mnemonic::Add, condition: CondMode::Absent, cond_field: None, size: SizeRule::Common(0), slots: seq![Slot { field: 1, kind: SlotKind::NullableReg, optional: false }, Slot { field: 2, kind: SlotKind::Reg, optional: false }, Slot { field: 3, kind: SlotKind::Reg, optional: false }, Slot { field: 4, kind: SlotKind::Bool, optional: true }, Slot { field: 5, kind: SlotKind::Bool, optional: true }] },
        Opcode::AddImm => Syntax { mnemonic: Mnemonic::Add, condition: CondMode::Absent, cond_field: None, size: SizeRule::Common(0), slots: seq![Slot { field: 1, kind: SlotKind::NullableReg, optional: false }, Slot { field: 2, kind: SlotKind::Reg, optional: false }, Slot { field: 3, kind: SlotKind::Imm(11), optional: false }, Slot { field: 4, kind: SlotKind::Imm(3), optional: true }, Slot { field: 5, kind: SlotKind::Bool, optional: true }, Slot { field: 6, kind: SlotKind::Bool, optional: true }, Slot { field: 7, kind: SlotKind::Bool, optional: true }] },
        Opcode::SubReg => Syntax { mnemonic: Mnemonic::Sub, condition: CondMode::Absent, cond_field: None, size: SizeRule::Common(0), slots: seq![Slot { field: 1, kind: SlotKind::NullableReg, optional: false }, Slot { field: 2, kind: SlotKind::Reg, optional: false }, Slot { field: 3, kind: SlotKind::Reg, optional: false }, Slot { field: 4, kind: SlotKind::Bool, optional: true }, Slot { field: 5, kind: SlotKind::Bool, optional: true }] },
        Opcode::SubImm => Syntax { mnemonic: Mnemonic::Sub, condition: CondMode::Absent, cond_field: None, size: SizeRule::Common(0), slots: seq![Slot { field: 1, kind: SlotKind::NullableReg, optional: false }, Slot { field: 2, kind: SlotKind::Reg, optional: false }, Slot { field: 3, kind: SlotKind::Imm(11), optional: false }, Slot { field: 4, kind: SlotKind::Imm(3), optional: true }, Slot { field: 5, kind: SlotKind::Bool, optional: true }, Slot { field: 6, kind: SlotKind::Bool, optional: true }, Slot { field: 7, kind: SlotKind::Bool, optional: true }] },
        Opcode::Mul => Syntax { mnemonic: Mnemonic::Mul, condition: CondMode::Absent, cond_field: None, size: SizeRule::Split { src_field: 0, src_a: 1, src_b: 2, dst_field: 1, dst_slot: 0 }, slots: seq![Slot { field: 2, kind: SlotKind::Reg, optional: false }, Slot { field: 3, kind: SlotKind::Reg, optional: false }, Slot { field: 4, kind: SlotKind::Reg, optional: false }, Slot { field: 5, kind: SlotKind::Bool, optional: true }, Slot { field: 6, kind: SlotKind::Bool, optional: true }] },
        Opcode::Div => Syntax { mnemonic: Mnemonic::Div, condition: CondMode::Absent, cond_field: None, size: SizeRule::Common(0), slots: seq![Slot { field: 1, kind: SlotKind::Reg, optional: false }, Slot { field: 2, kind: SlotKind::Reg, optional: false }, Slot { field: 3, kind: SlotKind::Reg, optional: false }, Slot { field: 4, kind: SlotKind::Reg, optional: false }, Slot { field: 5, kind: SlotKind::Bool, optional: true }, Slot { field: 6, kind: SlotKind::Bool, optional: true }] },
        Opcode::AndReg => Syntax { mnemonic: Mnemonic::And, condition: CondMode::Absent, cond_field: None, size: SizeRule::Common(0), slots: seq![Slot { field: 1, kind: SlotKind::NullableReg, optional: false }, Slot { field: 2, kind: SlotKind::Reg, optional: false }, Slot { field: 3, kind: SlotKind::Reg, optional: false }, Slot { field: 4, kind: SlotKind::Bool, optional: true }] },
        Opcode::AndImm => Syntax { mnemonic: Mnemonic::And, condition: CondMode::Absent, cond_field: None, size: SizeRule::Common(0), slots: seq![Slot { field: 1, kind: SlotKind::NullableReg, optional: false }, Slot { field: 2, kind: SlotKind::Reg, optional: false }, Slot { field: 3, kind: SlotKind::Imm(11), optional: false }, Slot { field: 4, kind: SlotKind::Imm(3), optional: true }, Slot { field: 5, kind: SlotKind::Bool, optional: true }] },
        Opcode::OrReg => Syntax { mnemonic: Mnemonic::Or, condition: CondMode::Absent, cond_field: None, size: SizeRule::Common(0), slots: seq![Slot { field: 1, kind: SlotKind::NullableReg, optional: false }, Slot { field: 2, kind: SlotKind::Reg, optional: false }, Slot { field: 3, kind: SlotKind::Reg, optional: false }, Slot { field: 4, kind: SlotKind::Bool, optional: true }] },
        Opcode::OrImm => Syntax { mnemonic: Mnemonic::Or, condition: CondMode::Absent, cond_field: None, size: SizeRule::Common(0), slots: seq![Slot { field: 1, kind: SlotKind::NullableReg, optional: false }, Slot { field: 2, kind: SlotKind::Reg, optional: false }, Slot { field: 3, kind: SlotKind::Imm(11), optional: false }, Slot { field: 4, kind: SlotKind::Imm(3), optional: true }, Slot { field: 5, kind: SlotKind::Bool, optional: true }] },
        Opcode::XorReg => Syntax { mnemonic: Mnemonic::Xor, condition: CondMode::Absent, cond_field: None, size: SizeRule::Common(0), slots: seq![Slot { field: 1, kind: SlotKind::NullableReg, optional: false }, Slot { field: 2, kind: SlotKind::Reg, optional: false }, Slot { field: 3, kind: SlotKind::Reg, optional: false }, Slot { field: 4, kind: SlotKind::Bool, optional: true }] },
        Opcode::XorImm => Syntax { mnemonic: Mnemonic::Xor, condition: CondMode::Absent, cond_field: None, size: SizeRule::Common(0), slots: seq![Slot { field: 1, kind: SlotKind::NullableReg, optional: false }, Slot { field: 2, kind: SlotKind::Reg, optional: false }, Slot { field: 3, kind: SlotKind::Imm(11), optional: false }, Slot { field: 4, kind: SlotKind::Imm(3), optional: true }, Slot { field: 5, kind: SlotKind::Bool, optional: true }] },
        Opcode::ShlReg => Syntax { mnemonic: Mnemonic::Shl, condition: CondMode::Absent, cond_field: None, size: SizeRule::Common(0), slots: seq![Slot { field: 1, kind: SlotKind::NullableReg, optional: false }, Slot { field: 2, kind: SlotKind::Reg, optional: false }, Slot { field: 3, kind: SlotKind::Reg, optional: false }, Slot { field: 4, kind: SlotKind::Bool, optional: true }] },
        Opcode::ShlImm => Syntax { mnemonic: Mnemonic::Shl, condition: CondMode::Absent, cond_field: None, size: SizeRule::Common(0), slots: seq![Slot { field: 1, kind: SlotKind::NullableReg, optional: false }, Slot { field: 2, kind: SlotKind::Reg, optional: false }, Slot { field: 3, kind: SlotKind::Imm(7), optional: false }, Slot { field: 4, kind: SlotKind::Bool, optional: true }] },
        Opcode::ShrReg => Syntax { mnemonic: Mnemonic::Shr, condition: CondMode::Absent, cond_field: None, size: SizeRule::Common(0), slots: seq![Slot { field: 1, kind: SlotKind::NullableReg, optional: false }, Slot { field: 2, kind: SlotKind::Reg, optional: false }, Slot { field: 3, kind: SlotKind::Reg, optional: false }, Slot { field: 4, kind: SlotKind::Bool, optional: true }, Slot { field: 5, kind: SlotKind::Bool, optional: true }] },
        Opcode::ShrImm => Syntax { mnemonic: Mnemonic::Shr, condition: CondMode::Absent, cond_field: None, size: SizeRule::Common(0), slots: seq![Slot { field: 1, kind: SlotKind::NullableReg, optional: false }, Slot { field: 2, kind: SlotKind::Reg, optional: false }, Slot { field: 3, kind: SlotKind::Imm(7), optional: false }, Slot { field: 4, kind: SlotKind::Bool, optional: true }, Slot { field: 5, kind: SlotKind::Bool, optional: true }] },
        Opcode::RotReg => Syntax { mnemonic: Mnemonic::Rot, condition: CondMode::Absent, cond_field: None, size: SizeRule::Common(0), slots: seq![Slot { field: 1, kind: SlotKind::NullableReg, optional: false }, Slot { field: 2, kind: SlotKind::Reg, optional: false }, Slot { field: 3, kind: SlotKind::Reg, optional: false }, Slot { field: 4, kind: SlotKind::Bool, optional: true }] },
        Opcode::RotImm => Syntax { mnemonic: Mnemonic::Rot, condition: CondMode::Absent, cond_field: None, size: SizeRule::Common(0), slots: seq![Slot { field: 1, kind: SlotKind::NullableReg, optional: false }, Slot { field: 2, kind: SlotKind::Reg, optional: false }, Slot { field: 3, kind: SlotKind::Imm(7), optional: false }, Slot { field: 4, kind: SlotKind::Bool, optional: true }] },
        Opcode::Neg => Syntax { mnemonic: Mnemonic::Neg, condition: CondMode::Absent, cond_field: None, size: SizeRule::Common(0), slots: seq![Slot { field: 1, kind: SlotKind::Reg, optional: false }, Slot { field: 2, kind: SlotKind::Reg, optional: false }, Slot { field: 3, kind: SlotKind::Bool, optional: true }] },
        Opcode::Bswap => Syntax { mnemonic: Mnemonic::Bswap, condition: CondMode::Absent, cond_field: None, size: SizeRule::Common(0), slots: seq![Slot { field: 1, kind: SlotKind::Reg, optional: false }, Slot { field: 2, kind: SlotKind::Reg, optional: false }, Slot { field: 3, kind: SlotKind::Bool, optional: true }] },
        Opcode::Jmpa => Syntax { mnemonic: Mnemonic::Jmpa, condition: CondMode::Optional, cond_field: Some(0), size: SizeRule::NoSize, slots: seq![Slot { field: 1, kind: SlotKind::Reg, optional: false }] },
        Opcode::JmprReg => Syntax { mnemonic: Mnemonic::Jmpr, condition: CondMode::Optional, cond_field: Some(0), size: SizeRule::NoSize, slots: seq![Slot { field: 1, kind: SlotKind::Reg, optional: false }] },
        Opcode::JmprRel => Syntax { mnemonic: Mnemonic::Jmpr, condition: CondMode::Optional, cond_field: Some(0), size: SizeRule::NoSize, slots: seq![Slot { field: 1, kind: SlotKind::Rel(22), optional: false }] },
        Opcode::Cjmpa => Syntax { mnemonic: Mnemonic::Cjmpa, condition: CondMode::Required, cond_field: Some(0), size: SizeRule::Common(1), slots: seq![Slot { field: 2, kind: SlotKind::Reg, optional: false }, Slot { field: 3, kind: SlotKind::Reg, optional: false }, Slot { field: 4, kind: SlotKind::Reg, optional: false }] },
        Opcode::CjmprReg => Syntax { mnemonic: Mnemonic::Cjmpr, condition: CondMode::Required, cond_field: Some(0), size: SizeRule::Common(1), slots: seq![Slot { field: 2, kind: SlotKind::Reg, optional: false }, Slot { field: 3, kind: SlotKind::Reg, optional: false }, Slot { field: 4, kind: SlotKind::Reg, optional: false }] },
        Opcode::CjmprRel => Syntax { mnemonic: Mnemonic::Cjmpr, condition: CondMode::Required, cond_field: Some(0), size: SizeRule::Common(1), slots: seq![Slot { field: 2, kind: SlotKind::Rel(13), optional: false }, Slot { field: 3, kind: SlotKind::Reg, optional: false }, Slot { field: 4, kind: SlotKind::Reg, optional: false }] },
        Opcode::Calla => Syntax { mnemonic: Mnemonic::Calla, condition: CondMode::Optional, cond_field: Some(0), size: SizeRule::NoSize, slots: seq![Slot { field: 1, kind: SlotKind::Reg, optional: false }] },
        Opcode::CallrReg => Syntax { mnemonic: Mnemonic::Callr, condition: CondMode::Optional, cond_field: Some(0), size: SizeRule::NoSize, slots: seq![Slot { field: 1, kind: SlotKind::Reg, optional: false }] },
        Opcode::CallrRel => Syntax { mnemonic: Mnemonic::Callr, condition: CondMode::Optional, cond_field: Some(0), size: SizeRule::NoSize, slots: seq![Slot { field: 1, kind: SlotKind::Rel(22), optional: false }] },
        Opcode::Ret => Syntax { mnemonic: Mnemonic::Ret, condition: CondMode::Absent, cond_field: None, size: SizeRule::NoSize, slots: seq![] },
        Opcode::Eret => Syntax { mnemonic: Mnemonic::Eret, condition: CondMode::Absent, cond_field: None, size: SizeRule::NoSize, slots: seq![] },
        Opcode::Udf => Syntax { mnemonic: Mnemonic::Udf, condition: CondMode::Absent, cond_field: None, size: SizeRule::NoSize, slots: seq![] },
        Opcode::Dbg => Syntax { mnemonic: Mnemonic::Dbg, condition: CondMode::Absent, cond_field: None, size: SizeRule::NoSize, slots: seq![] },
        Opcode::Exc => Syntax { mnemonic: Mnemonic::Exc, condition: CondMode::Absent, cond_field: None, size: SizeRule::NoSize, slots: seq![Slot { field: 0, kind: SlotKind::Imm(16), optional: false }] },
        Opcode::Nop => Syntax { mnemonic: Mnemonic::Nop, condition: CondMode::Absent, cond_field: None, size: SizeRule::NoSize, slots: seq![] },
        Opcode::Ldm => Syntax { mnemonic: Mnemonic::Ldm, condition: CondMode::Absent, cond_field: None, size: SizeRule::NoSize, slots: seq![Slot { field: 0, kind: SlotKind::Reg, optional: false }, Slot { field: 1, kind: SlotKind::Imm(22), optional: false }] },
        Opcode::Stm => Syntax { mnemonic: Mnemonic::Stm, condition: CondMode::Absent, cond_field: None, size: SizeRule::NoSize, slots: seq![Slot { field: 0, kind: SlotKind::Imm(22), optional: false }, Slot { field: 1, kind: SlotKind::Reg, optional: false }] },
    }
}

/// Every field that the source form of `op` fills exists.
pub proof fn lemma_syntax_fits(op: Opcode)
    ensures
        forall|i: int| 0 <= i < syntax(op).slots.len() ==> (#[trigger] syntax(op).slots[i]).field < layout(op).1.len(),
        syntax(op).cond_field matches Some(f) ==> f < layout(op).1.len(),
        forall|i: int|
            0 <= i < syntax(op).slots.len() ==> match (#[trigger] syntax(op).slots[i]).kind {
                SlotKind::Imm(w) | SlotKind::Rel(w) | SlotKind::ByteRel(w) => 1 <= w <= 32,
                _ => true,
            },
        syntax(op).size matches SizeRule::Common(f) ==> f < layout(op).1.len(),
        syntax(op).size matches SizeRule::Split { src_field, src_a, src_b, dst_field, dst_slot } ==> src_field < layout(
            op,
        ).1.len() && dst_field < layout(op).1.len(),
{
}

fn syntax_of(op: Opcode) -> (r: (Mnemonic, CondMode, Option<usize>, SizeRule, Vec<Slot>))
    ensures
        r.0 == syntax(op).mnemonic,
        r.1 == syntax(op).condition,
        r.2 == syntax(op).cond_field,
        r.3 == syntax(op).size,
        r.4@ == syntax(op).slots,
{
    let r = match op {
        Opcode::Pushs => (Mnemonic::Pushs, CondMode::Absent, None, SizeRule::Common(0), vec![Slot { field: 1, kind: SlotKind::NullableReg, optional: false }]),
        Opcode::Pushp => (Mnemonic::Pushp, CondMode::Absent, None, SizeRule::Common(0), vec![Slot { field: 1, kind: SlotKind::NullableReg, optional: false }, Slot { field: 2, kind: SlotKind::NullableReg, optional: false }]),
        Opcode::Pops => (Mnemonic::Pops, CondMode::Absent, None, SizeRule::Common(0), vec![Slot { field: 1, kind: SlotKind::NullableReg, optional: false }]),
        Opcode::Popp => (Mnemonic::Popp, CondMode::Absent, None, SizeRule::Common(0), vec![Slot { field: 1, kind: SlotKind::NullableReg, optional: false }, Slot { field: 2, kind: SlotKind::NullableReg, optional: false }]),
        Opcode::Lds => (Mnemonic::Lds, CondMode::Absent, None, SizeRule::Common(0), vec![Slot { field: 1, kind: SlotKind::Reg, optional: false }, Slot { field: 2, kind: SlotKind::Reg, optional: false }]),
        Opcode::Ldp => (Mnemonic::Ldp, CondMode::Absent, None, SizeRule::Common(0), vec![Slot { field: 1, kind: SlotKind::Reg, optional: false }, Slot { field: 2, kind: SlotKind::Reg, optional: false }, Slot { field: 3, kind: SlotKind::Reg, optional: false }]),
        Opcode::Sts => (Mnemonic::Sts, CondMode::Absent, None, SizeRule::Common(0), vec![Slot { field: 1, kind: SlotKind::Reg, optional: false }, Slot { field: 2, kind: SlotKind::Reg, optional: false }]),
        Opcode::Stp => (Mnemonic::Stp, CondMode::Absent, None, SizeRule::Common(0), vec![Slot { field: 1, kind: SlotKind::Reg, optional: false }, Slot { field: 2, kind: SlotKind::Reg, optional: false }, Slot { field: 3, kind: SlotKind::Reg, optional: false }]),
        Opcode::Ldi => (Mnemonic::Ldi, CondMode::Absent, None, SizeRule::NoSize, vec![Slot { field: 0, kind: SlotKind::Reg, optional: false }, Slot { field: 1, kind: SlotKind::Imm(16), optional: false }, Slot { field: 2, kind: SlotKind::Imm(6), optional: true }, Slot { field: 3, kind: SlotKind::Imm(2), optional: true }]),
        Opcode::Ldr => (Mnemonic::Ldr, CondMode::Absent, None, SizeRule::NoSize, vec![Slot { field: 0, kind: SlotKind::Reg, optional: false }, Slot { field: 1, kind: SlotKind::ByteRel(22), optional: false }]),
        Opcode::Copy => (Mnemonic::Copy, CondMode::Absent, None, SizeRule::Common(0), vec![Slot { field: 1, kind: SlotKind::Reg, optional: false }, Slot { field: 2, kind: SlotKind::Reg, optional: false }]),
        Opcode::AddReg => (Mnemonic::Add, CondMode::Absent, None, SizeRule::Common(0), vec![Slot { field: 1, kind: SlotKind::NullableReg, optional: false }, Slot { field: 2, kind: SlotKind::Reg, optional: false }, Slot { field: 3, kind: SlotKind::Reg, optional: false }, Slot { field: 4, kind: SlotKind::Bool, optional: true }, Slot { field: 5, kind: SlotKind::Bool, optional: true }]),
        Opcode::AddImm => (Mnemonic::Add, CondMode::Absent, None, SizeRule::Common(0), vec![Slot { field: 1, kind: SlotKind::NullableReg, optional: false }, Slot { field: 2, kind: SlotKind::Reg, optional: false }, Slot { field: 3, kind: SlotKind::Imm(11), optional: false }, Slot { field: 4, kind: SlotKind::Imm(3), optional: true }, Slot { field: 5, kind: SlotKind::Bool, optional: true }, Slot { field: 6, kind: SlotKind::Bool, optional: true }, Slot { field: 7, kind: SlotKind::Bool, optional: true }]),
        Opcode::SubReg => (Mnemonic::Sub, CondMode::Absent, None, SizeRule::Common(0), vec![Slot { field: 1, kind: SlotKind::NullableReg, optional: false }, Slot { field: 2, kind: SlotKind::Reg, optional: false }, Slot { field: 3, kind: SlotKind::Reg, optional: false }, Slot { field: 4, kind: SlotKind::Bool, optional: true }, Slot { field: 5, kind: SlotKind::Bool, optional: true }]),
        Opcode::SubImm => (Mnemonic::Sub, CondMode::Absent, None, SizeRule::Common(0), vec![Slot { field: 1, kind: SlotKind::NullableReg, optional: false }, Slot { field: 2, kind: SlotKind::Reg, optional: false }, Slot { field: 3, kind: SlotKind::Imm(11), optional: false }, Slot { field: 4, kind: SlotKind::Imm(3), optional: true }, Slot { field: 5, kind: SlotKind::Bool, optional: true }, Slot { field: 6, kind: SlotKind::Bool, optional: true }, Slot { field: 7, kind: SlotKind::Bool, optional: true }]),
        Opcode::Mul => (Mnemonic::Mul, CondMode::Absent, None, SizeRule::Split { src_field: 0, src_a: 1, src_b: 2, dst_field: 1, dst_slot: 0 }, vec![Slot { field: 2, kind: SlotKind::Reg, optional: false }, Slot { field: 3, kind: SlotKind::Reg, optional: false }, Slot { field: 4, kind: SlotKind::Reg, optional: false }, Slot { field: 5, kind: SlotKind::Bool, optional: true }, Slot { field: 6, kind: SlotKind::Bool, optional: true }]),
        Opcode::Div => (Mnemonic::Div, CondMode::Absent, None, SizeRule::Common(0), vec![Slot { field: 1, kind: SlotKind::Reg, optional: false }, Slot { field: 2, kind: SlotKind::Reg, optional: false }, Slot { field: 3, kind: SlotKind::Reg, optional: false }, Slot { field: 4, kind: SlotKind::Reg, optional: false }, Slot { field: 5, kind: SlotKind::Bool, optional: true }, Slot { field: 6, kind: SlotKind::Bool, optional: true }]),
        Opcode::AndReg => (Mnemonic::And, CondMode::Absent, None, SizeRule::Common(0), vec![Slot { field: 1, kind: SlotKind::NullableReg, optional: false }, Slot { field: 2, kind: SlotKind::Reg, optional: false }, Slot { field: 3, kind: SlotKind::Reg, optional: false }, Slot { field: 4, kind: SlotKind::Bool, optional: true }]),
        Opcode::AndImm => (Mnemonic::And, CondMode::Absent, None, SizeRule::Common(0), vec![Slot { field: 1, kind: SlotKind::NullableReg, optional: false }, Slot { field: 2, kind: SlotKind::Reg, optional: false }, Slot { field: 3, kind: SlotKind::Imm(11), optional: false }, Slot { field: 4, kind: SlotKind::Imm(3), optional: true }, Slot { field: 5, kind: SlotKind::Bool, optional: true }]),
        Opcode::OrReg => (Mnemonic::Or, CondMode::Absent, None, SizeRule::Common(0), vec![Slot { field: 1, kind: SlotKind::NullableReg, optional: false }, Slot { field: 2, kind: SlotKind::Reg, optional: false }, Slot { field: 3, kind: SlotKind::Reg, optional: false }, Slot { field: 4, kind: SlotKind::Bool, optional: true }]),
        Opcode::OrImm => (Mnemonic::Or, CondMode::Absent, None, SizeRule::Common(0), vec![Slot { field: 1, kind: SlotKind::NullableReg, optional: false }, Slot { field: 2, kind: SlotKind::Reg, optional: false }, Slot { field: 3, kind: SlotKind::Imm(11), optional: false }, Slot { field: 4, kind: SlotKind::Imm(3), optional: true }, Slot { field: 5, kind: SlotKind::Bool, optional: true }]),
        Opcode::XorReg => (Mnemonic::Xor, CondMode::Absent, None, SizeRule::Common(0), vec![Slot { field: 1, kind: SlotKind::NullableReg, optional: false }, Slot { field: 2, kind: SlotKind::Reg, optional: false }, Slot { field: 3, kind: SlotKind::Reg, optional: false }, Slot { field: 4, kind: SlotKind::Bool, optional: true }]),
        Opcode::XorImm => (Mnemonic::Xor, CondMode::Absent, None, SizeRule::Common(0), vec![Slot { field: 1, kind: SlotKind::NullableReg, optional: false }, Slot { field: 2, kind: SlotKind::Reg, optional: false }, Slot { field: 3, kind: SlotKind::Imm(11), optional: false }, Slot { field: 4, kind: SlotKind::Imm(3), optional: true }, Slot { field: 5, kind: SlotKind::Bool, optional: true }]),
        Opcode::ShlReg => (Mnemonic::Shl, CondMode::Absent, None, SizeRule::Common(0), vec![Slot { field: 1, kind: SlotKind::NullableReg, optional: false }, Slot { field: 2, kind: SlotKind::Reg, optional: false }, Slot { field: 3, kind: SlotKind::Reg, optional: false }, Slot { field: 4, kind: SlotKind::Bool, optional: true }]),
        Opcode::ShlImm => (Mnemonic::Shl, CondMode::Absent, None, SizeRule::Common(0), vec![Slot { field: 1, kind: SlotKind::NullableReg, optional: false }, Slot { field: 2, kind: SlotKind::Reg, optional: false }, Slot { field: 3, kind: SlotKind::Imm(7), optional: false }, Slot { field: 4, kind: SlotKind::Bool, optional: true }]),
        Opcode::ShrReg => (Mnemonic::Shr, CondMode::Absent, None, SizeRule::Common(0), vec![Slot { field: 1, kind: SlotKind::NullableReg, optional: false }, Slot { field: 2, kind: SlotKind::Reg, optional: false }, Slot { field: 3, kind: SlotKind::Reg, optional: false }, Slot { field: 4, kind: SlotKind::Bool, optional: true }, Slot { field: 5, kind: SlotKind::Bool, optional: true }]),
        Opcode::ShrImm => (Mnemonic::Shr, CondMode::Absent, None, SizeRule::Common(0), vec![Slot { field: 1, kind: SlotKind::NullableReg, optional: false }, Slot { field: 2, kind: SlotKind::Reg, optional: false }, Slot { field: 3, kind: SlotKind::Imm(7), optional: false }, Slot { field: 4, kind: SlotKind::Bool, optional: true }, Slot { field: 5, kind: SlotKind::Bool, optional: true }]),
        Opcode::RotReg => (Mnemonic::Rot, CondMode::Absent, None, SizeRule::Common(0), vec![Slot { field: 1, kind: SlotKind::NullableReg, optional: false }, Slot { field: 2, kind: SlotKind::Reg, optional: false }, Slot { field: 3, kind: SlotKind::Reg, optional: false }, Slot { field: 4, kind: SlotKind::Bool, optional: true }]),
        Opcode::RotImm => (Mnemonic::Rot, CondMode::Absent, None, SizeRule::Common(0), vec![Slot { field: 1, kind: SlotKind::NullableReg, optional: false }, Slot { field: 2, kind: SlotKind::Reg, optional: false }, Slot { field: 3, kind: SlotKind::Imm(7), optional: false }, Slot { field: 4, kind: SlotKind::Bool, optional: true }]),
        Opcode::Neg => (Mnemonic::Neg, CondMode::Absent, None, SizeRule::Common(0), vec![Slot { field: 1, kind: SlotKind::Reg, optional: false }, Slot { field: 2, kind: SlotKind::Reg, optional: false }, Slot { field: 3, kind: SlotKind::Bool, optional: true }]),
        Opcode::Bswap => (Mnemonic::Bswap, CondMode::Absent, None, SizeRule::Common(0), vec![Slot { field: 1, kind: SlotKind::Reg, optional: false }, Slot { field: 2, kind: SlotKind::Reg, optional: false }, Slot { field: 3, kind: SlotKind::Bool, optional: true }]),
        Opcode::Jmpa => (Mnemonic::Jmpa, CondMode::Optional, Some(0), SizeRule::NoSize, vec![Slot { field: 1, kind: SlotKind::Reg, optional: false }]),
        Opcode::JmprReg => (Mnemonic::Jmpr, CondMode::Optional, Some(0), SizeRule::NoSize, vec![Slot { field: 1, kind: SlotKind::Reg, optional: false }]),
        Opcode::JmprRel => (Mnemonic::Jmpr, CondMode::Optional, Some(0), SizeRule::NoSize, vec![Slot { field: 1, kind: SlotKind::Rel(22), optional: false }]),
        Opcode::Cjmpa => (Mnemonic::Cjmpa, CondMode::Required, Some(0), SizeRule::Common(1), vec![Slot { field: 2, kind: SlotKind::Reg, optional: false }, Slot { field: 3, kind: SlotKind::Reg, optional: false }, Slot { field: 4, kind: SlotKind::Reg, optional: false }]),
        Opcode::CjmprReg => (Mnemonic::Cjmpr, CondMode::Required, Some(0), SizeRule::Common(1), vec![Slot { field: 2, kind: SlotKind::Reg, optional: false }, Slot { field: 3, kind: SlotKind::Reg, optional: false }, Slot { field: 4, kind: SlotKind::Reg, optional: false }]),
        Opcode::CjmprRel => (Mnemonic::Cjmpr, CondMode::Required, Some(0), SizeRule::Common(1), vec![Slot { field: 2, kind: SlotKind::Rel(13), optional: false }, Slot { field: 3, kind: SlotKind::Reg, optional: false }, Slot { field: 4, kind: SlotKind::Reg, optional: false }]),
        Opcode::Calla => (Mnemonic::Calla, CondMode::Optional, Some(0), SizeRule::NoSize, vec![Slot { field: 1, kind: SlotKind::Reg, optional: false }]),
        Opcode::CallrReg => (Mnemonic::Callr, CondMode::Optional, Some(0), SizeRule::NoSize, vec![Slot { field: 1, kind: SlotKind::Reg, optional: false }]),
        Opcode::CallrRel => (Mnemonic::Callr, CondMode::Optional, Some(0), SizeRule::NoSize, vec![Slot { field: 1, kind: SlotKind::Rel(22), optional: false }]),
        Opcode::Ret => (Mnemonic::Ret, CondMode::Absent, None, SizeRule::NoSize, vec![]),
        Opcode::Eret => (Mnemonic::Eret, CondMode::Absent, None, SizeRule::NoSize, vec![]),
        Opcode::Udf => (Mnemonic::Udf, CondMode::Absent, None, SizeRule::NoSize, vec![]),
        Opcode::Dbg => (Mnemonic::Dbg, CondMode::Absent, None, SizeRule::NoSize, vec![]),
        Opcode::Exc => (Mnemonic::Exc, CondMode::Absent, None, SizeRule::NoSize, vec![Slot { field: 0, kind: SlotKind::Imm(16), optional: false }]),
        Opcode::Nop => (Mnemonic::Nop, CondMode::Absent, None, SizeRule::NoSize, vec![]),
        Opcode::Ldm => (Mnemonic::Ldm, CondMode::Absent, None, SizeRule::NoSize, vec![Slot { field: 0, kind: SlotKind::Reg, optional: false }, Slot { field: 1, kind: SlotKind::Imm(22), optional: false }]),
        Opcode::Stm => (Mnemonic::Stm, CondMode::Absent, None, SizeRule::NoSize, vec![Slot { field: 0, kind: SlotKind::Imm(22), optional: false }, Slot { field: 1, kind: SlotKind::Reg, optional: false }]),
    };
    assert(r.4@ =~= syntax(op).slots);
    r
}

/// A source operand.
#[derive(Debug)]
pub enum Operand {
    Register(Register),
    Null,
    Immediate(Expr),
}

/// A parsed instruction: its name, its condition and size modifiers, and
/// its operands in source order.
#[derive(Debug)]
pub struct ParsedInstruction {
    pub mnemonic: Mnemonic,
    pub condition: Option<Condition>,
    pub size: Option<Size>,
    pub operands: Vec<Operand>,
}

/// Whether operand `x` may stand where `k` is expected.
pub open spec fn compatible(k: SlotKind, x: Operand) -> bool {
    match x {
        Operand::Register(_) => k is Reg || k is NullableReg,
        Operand::Null => k is NullableReg,
        Operand::Immediate(_) => !(k is Reg) && !(k is NullableReg),
    }
}

/// Whether entry `op` is a form of the written instruction.
pub open spec fn accepts(op: Opcode, m: Mnemonic, cond: Option<Condition>, size: Option<Size>, ops: Seq<Operand>) -> bool {
    let syn = syntax(op);
    &&& syn.mnemonic == m
    &&& ops.len() <= syn.slots.len()
    &&& forall|i: int|
        0 <= i < syn.slots.len() ==> (if i < ops.len() {
            compatible((#[trigger] syn.slots[i]).kind, ops[i])
        } else {
            syn.slots[i].optional
        })
    &&& match syn.condition {
        CondMode::Absent => cond.is_none(),
        CondMode::Optional => true,
        CondMode::Required => cond.is_some(),
    }
    &&& (syn.size is Common || size.is_none())
}

/// The first entry, from position `i` of the table on, that is a form of
/// the written instruction.
pub open spec fn select_from(m: Mnemonic, cond: Option<Condition>, size: Option<Size>, ops: Seq<Operand>, i: int) -> Option<Opcode>
    decreases 48 - i,
{
    if i < 0 || i >= 48 {
        None
    } else if accepts(opcode_at(i), m, cond, size, ops) {
        Some(opcode_at(i))
    } else {
        select_from(m, cond, size, ops, i + 1)
    }
}

/// The field value of operand `x` in a slot of kind `k`; `next` is the
/// address of the next instruction, which `.` also denotes.
pub open spec fn slot_value(k: SlotKind, x: Operand, labels: Seq<Option<u64>>, next: u64) -> Result<u64, AsmError> {
    match x {
        Operand::Register(r) => Ok(r.id as u64),
        Operand::Null => Ok(31),
        Operand::Immediate(e) => match eval_spec(e, labels, next) {
            Err(err) => Err(err),
            Ok(v) => match k {
                SlotKind::Imm(w) => Ok(zero_ext(v, w as u64)),
                SlotKind::Rel(w) => if v % 4 != 0 {
                    Err(AsmError::MisalignedRelative)
                } else {
                    Ok(sign_ext((v / 4).wrapping_sub(next / 4), w as u64))
                },
                SlotKind::ByteRel(w) => Ok(sign_ext(v.wrapping_sub(next), w as u64)),
                _ => Ok(v),
            },
        },
    }
}

/// The field values after the operands from slot `i` on are placed.
pub open spec fn fill_slots(
    slots: Seq<Slot>,
    ops: Seq<Operand>,
    labels: Seq<Option<u64>>,
    next: u64,
    i: int,
    acc: Seq<u64>,
) -> Result<Seq<u64>, AsmError>
    decreases slots.len() - i,
{
    if i < 0 || i >= slots.len() || i >= ops.len() {
        Ok(acc)
    } else {
        match slot_value(slots[i].kind, ops[i], labels, next) {
            Err(err) => Err(err),
            Ok(v) => fill_slots(slots, ops, labels, next, i + 1, acc.update(slots[i].field as int, v)),
        }
    }
}

/// Operand `i` as an argument for size resolution: registers only.
pub open spec fn size_arg(ops: Seq<Operand>, i: int) -> Option<Argument> {
    if 0 <= i < ops.len() {
        match ops[i] {
            Operand::Register(r) => Some(Argument::Register(r)),
            _ => None,
        }
    } else {
        None
    }
}

/// The field values with the size fields filled.
pub open spec fn size_values(rule: SizeRule, size: Option<Size>, ops: Seq<Operand>, acc: Seq<u64>) -> Result<Seq<u64>, AsmError> {
    match rule {
        SizeRule::NoSize => Ok(acc),
        SizeRule::Common(f) => match common_size_spec(Seq::new(ops.len(), |i: int| size_arg(ops, i)), size) {
            Err(err) => Err(err),
            Ok(s) => Ok(acc.update(f as int, s.code())),
        },
        SizeRule::Split { src_field, src_a, src_b, dst_field, dst_slot } => match common_size_spec(
            seq![size_arg(ops, src_a as int), size_arg(ops, src_b as int)],
            None,
        ) {
            Err(err) => Err(err),
            Ok(s) => match common_size_spec(seq![size_arg(ops, dst_slot as int)], None) {
                Err(err) => Err(err),
                Ok(t) => Ok(acc.update(src_field as int, s.code()).update(dst_field as int, t.code())),
            },
        },
    }
}

/// The field values with the condition field filled; 15 for none.
pub open spec fn cond_value(field: Option<usize>, cond: Option<Condition>, acc: Seq<u64>) -> Seq<u64> {
    match field {
        None => acc,
        Some(f) => acc.update(
            f as int,
            match cond {
                Some(c) => c.code(),
                None => 15,
            },
        ),
    }
}

/// `n` zeros.
pub open spec fn zeros(n: nat) -> Seq<u64> {
    Seq::new(n, |i: int| 0u64)
}

/// The word that encodes a written instruction at address `pc`.
pub open spec fn instruction_spec(
    m: Mnemonic,
    cond: Option<Condition>,
    size: Option<Size>,
    ops: Seq<Operand>,
    labels: Seq<Option<u64>>,
    pc: u64,
) -> Result<u32, AsmError> {
    match select_from(m, cond, size, ops, 0) {
        None => Err(AsmError::UnknownInstruction),
        Some(op) => {
            let syn = syntax(op);
            match fill_slots(syn.slots, ops, labels, pc.wrapping_add(4), 0, zeros(layout(op).1.len())) {
                Err(err) => Err(err),
                Ok(v1) => match size_values(syn.size, size, ops, v1) {
                    Err(err) => Err(err),
                    Ok(v2) => Ok(encode_spec(op, cond_value(syn.cond_field, cond, v2))),
                },
            }
        },
    }
}

fn compatible_with(k: SlotKind, x: &Operand) -> (r: bool)
    ensures
        r == compatible(k, *x),
{
    match x {
        Operand::Register(_) => matches!(k, SlotKind::Reg | SlotKind::NullableReg),
        Operand::Null => matches!(k, SlotKind::NullableReg),
        Operand::Immediate(_) => !matches!(k, SlotKind::Reg | SlotKind::NullableReg),
    }
}

fn accepts_instruction(op: Opcode, ins: &ParsedInstruction) -> (r: bool)
    ensures
        r == accepts(op, ins.mnemonic, ins.condition, ins.size, ins.operands@),
{
    let (mnemonic, condition, _cond_field, size, slots) = syntax_of(op);
    if mnemonic != ins.mnemonic || ins.operands.len() > slots.len() {
        return false;
    }
    let ok_cond = match condition {
        CondMode::Absent => ins.condition.is_none(),
        CondMode::Optional => true,
        CondMode::Required => ins.condition.is_some(),
    };
    let ok_size = matches!(size, SizeRule::Common(_)) || ins.size.is_none();
    if !ok_cond || !ok_size {
        return false;
    }
    let mut i: usize = 0;
    while i < slots.len()
        invariant
            i <= slots@.len(),
            slots@ == syntax(op).slots,
            ins.operands@.len() <= slots@.len(),
            forall|k: int|
                0 <= k < i ==> (if k < ins.operands@.len() {
                    compatible((#[trigger] slots@[k]).kind, ins.operands@[k])
                } else {
                    slots@[k].optional
                }),
        decreases slots@.len() - i,
    {
        let ok = if i < ins.operands.len() {
            compatible_with(slots[i].kind, &ins.operands[i])
        } else {
            slots[i].optional
        };
        if !ok {
            return false;
        }
        i = i + 1;
    }
    true
}

/// The table entry that a written instruction stands for.
pub fn select_opcode(ins: &ParsedInstruction) -> (r: Option<Opcode>)
    ensures
        r == select_from(ins.mnemonic, ins.condition, ins.size, ins.operands@, 0),
{
    let mut i: usize = 0;
    while i < OPCODE_COUNT
        invariant
            i <= OPCODE_COUNT,
            select_from(ins.mnemonic, ins.condition, ins.size, ins.operands@, 0) == select_from(
                ins.mnemonic,
                ins.condition,
                ins.size,
                ins.operands@,
                i as int,
            ),
        decreases OPCODE_COUNT - i,
    {
        let op = opcode_at_index(i);
        if accepts_instruction(op, ins) {
            return Some(op);
        }
        i = i + 1;
    }
    None
}

fn slot_value_of(k: SlotKind, x: &Operand, labels: &Vec<Option<u64>>, next: u64) -> (r: Result<u64, AsmError>)
    requires
        match k {
            SlotKind::Imm(w) | SlotKind::Rel(w) | SlotKind::ByteRel(w) => 1 <= w <= 32,
            _ => true,
        },
    ensures
        r == slot_value(k, *x, labels@, next),
{
    match x {
        Operand::Register(r) => Ok(r.id as u64),
        Operand::Null => Ok(31),
        Operand::Immediate(e) => match evaluate_immediate(e, labels, next) {
            Err(err) => Err(err),
            Ok(v) => match k {
                SlotKind::Imm(w) => Ok(crate::bits::zero_extend_immediate(v, w as u64)),
                SlotKind::Rel(w) => if v % 4 != 0 {
                    Err(AsmError::MisalignedRelative)
                } else {
                    Ok(crate::bits::sign_extend_immediate((v / 4).wrapping_sub(next / 4), w as u64))
                },
                SlotKind::ByteRel(w) => Ok(crate::bits::sign_extend_immediate(v.wrapping_sub(next), w as u64)),
                _ => Ok(v),
            },
        },
    }
}

fn size_arg_of(ops: &Vec<Operand>, i: usize) -> (r: Option<Argument>)
    ensures
        r == size_arg(ops@, i as int),
{
    if i < ops.len() {
        match &ops[i] {
            Operand::Register(r) => Some(Argument::Register(*r)),
            _ => None,
        }
    } else {
        None
    }
}

/// Encodes a written instruction at address `pc`: picks the first table
/// entry that is a form of it, evaluates and places its operands, fills
/// the size and condition fields, and builds the word.
pub fn encode_instruction(ins: &ParsedInstruction, labels: &Vec<Option<u64>>, pc: u64) -> (r: Result<u32, AsmError>)
    ensures
        r == instruction_spec(ins.mnemonic, ins.condition, ins.size, ins.operands@, labels@, pc),
{
    let op = match select_opcode(ins) {
        None => {
            return Err(AsmError::UnknownInstruction);
        },
        Some(op) => op,
    };
    proof {
        lemma_syntax_fits(op);
    }
    let (_mnemonic, _condition, cond_field, size_rule, slots) = syntax_of(op);
    let (_value, fields) = crate::schema::layout_of(op);
    let next = pc.wrapping_add(4);
    let mut vals: Vec<u64> = Vec::new();
    while vals.len() < fields.len()
        invariant
            vals@.len() <= fields@.len(),
            forall|k: int| 0 <= k < vals@.len() ==> vals@[k] == 0,
        decreases fields@.len() - vals@.len(),
    {
        vals.push(0);
    }
    assert(vals@ =~= zeros(layout(op).1.len()));
    let ghost whole = fill_slots(syntax(op).slots, ins.operands@, labels@, next, 0, zeros(layout(op).1.len()));
    let mut i: usize = 0;
    while i < slots.len() && i < ins.operands.len()
        invariant
            i <= slots@.len(),
            slots@ == syntax(op).slots,
            fields@ == layout(op).1,
            vals@.len() == fields@.len(),
            forall|k: int| 0 <= k < slots@.len() ==> (#[trigger] slots@[k]).field < fields@.len(),
            forall|k: int|
                0 <= k < slots@.len() ==> match (#[trigger] slots@[k]).kind {
                    SlotKind::Imm(w) | SlotKind::Rel(w) | SlotKind::ByteRel(w) => 1 <= w <= 32,
                    _ => true,
                },
            whole == fill_slots(slots@, ins.operands@, labels@, next, i as int, vals@),
            whole == fill_slots(syntax(op).slots, ins.operands@, labels@, next, 0, zeros(layout(op).1.len())),
            next == pc.wrapping_add(4),
            select_from(ins.mnemonic, ins.condition, ins.size, ins.operands@, 0) == Some(op),
        decreases slots@.len() - i,
    {
        let slot = slots[i];
        match slot_value_of(slot.kind, &ins.operands[i], labels, next) {
            Err(err) => {
                assert(whole == Err::<Seq<u64>, AsmError>(err));
                return Err(err);
            },
            Ok(v) => {
                vals.set(slot.field, v);
            },
        }
        i = i + 1;
    }
    match size_rule {
        SizeRule::NoSize => {},
        SizeRule::Common(f) => {
            let mut args: Vec<Option<Argument>> = Vec::new();
            let mut k: usize = 0;
            while k < ins.operands.len()
                invariant
                    k <= ins.operands@.len(),
                    args@.len() == k,
                    forall|j: int| 0 <= j < k ==> args@[j] == size_arg(ins.operands@, j),
                decreases ins.operands@.len() - k,
            {
                args.push(size_arg_of(&ins.operands, k));
                k = k + 1;
            }
            assert(args@ =~= Seq::new(ins.operands@.len(), |j: int| size_arg(ins.operands@, j)));
            match common_register_size(&args, ins.size) {
                Err(err) => {
                    return Err(err);
                },
                Ok(s) => {
                    vals.set(f, s.code_of());
                },
            }
        },
        SizeRule::Split { src_field, src_a, src_b, dst_field, dst_slot } => {
            let src_args = vec![size_arg_of(&ins.operands, src_a), size_arg_of(&ins.operands, src_b)];
            assert(src_args@ =~= seq![size_arg(ins.operands@, src_a as int), size_arg(ins.operands@, src_b as int)]);
            let s = match common_register_size(&src_args, None) {
                Err(err) => {
                    return Err(err);
                },
                Ok(s) => s,
            };
            let dst_args = vec![size_arg_of(&ins.operands, dst_slot)];
            assert(dst_args@ =~= seq![size_arg(ins.operands@, dst_slot as int)]);
            let t = match common_register_size(&dst_args, None) {
                Err(err) => {
                    return Err(err);
                },
                Ok(t) => t,
            };
            vals.set(src_field, s.code_of());
            vals.set(dst_field, t.code_of());
        },
    }
    if let Some(f) = cond_field {
        let c = match ins.condition {
            Some(c) => c.code_of(),
            None => 15,
        };
        vals.set(f, c);
    }
    Ok(encode(op, &vals))
}

/// One item of a parsed source.
#[derive(Debug)]
pub enum Item {
    /// A label definition, by label number.
    Label(usize),
    Instruction(ParsedInstruction),
    /// `.addr`: continue at the given address.
    Addr(Expr),
    /// `.write`: values of the given size, little-endian.
    Write(Size, Vec<Expr>),
    /// `.def`: give a label a value.
    Def(usize, Expr),
}

/// The largest image the assembler produces.
pub const MAX_IMAGE_BYTES: u64 = 0x8000_0000;

/// `a` rounded up to a multiple of four.
pub open spec fn align4(a: u64) -> u64 {
    a.wrapping_add(3) & !3u64
}

/// Whether the first item after the labels from position `i` on is an
/// instruction.
pub open spec fn instruction_follows(items: Seq<Item>, i: int) -> bool
    decreases items.len() - i,
{
    if i < 0 || i >= items.len() {
        false
    } else {
        match items[i] {
            Item::Label(_) => instruction_follows(items, i + 1),
            Item::Instruction(_) => true,
            _ => false,
        }
    }
}

/// The first pass from item `i` at address `addr`: the label values.
pub open spec fn pass1_spec(items: Seq<Item>, i: int, addr: u64, labels: Seq<Option<u64>>) -> Result<Seq<Option<u64>>, AsmError>
    decreases items.len() - i,
{
    if i < 0 || i >= items.len() {
        Ok(labels)
    } else {
        match items[i] {
            Item::Label(id) => {
                let at = if instruction_follows(items, i + 1) { align4(addr) } else { addr };
                if id >= labels.len() {
                    Err(AsmError::UnknownLabel)
                } else if labels[id as int].is_some() {
                    Err(AsmError::DuplicateLabel)
                } else {
                    pass1_spec(items, i + 1, addr, labels.update(id as int, Some(at)))
                }
            },
            Item::Instruction(_) => pass1_spec(items, i + 1, align4(addr).wrapping_add(4), labels),
            Item::Addr(e) => match eval_spec(e, labels, addr) {
                Err(err) => Err(err),
                Ok(v) => pass1_spec(items, i + 1, v, labels),
            },
            Item::Write(size, es) => pass1_spec(items, i + 1, addr.wrapping_add(size.bytes().wrapping_mul(es@.len() as u64)), labels),
            Item::Def(id, e) => match eval_spec(e, labels, addr) {
                Err(err) => Err(err),
                Ok(v) => if id >= labels.len() {
                    Err(AsmError::UnknownLabel)
                } else {
                    pass1_spec(items, i + 1, addr, labels.update(id as int, Some(v)))
                },
            },
        }
    }
}

/// `image` with the low `n` bytes of `v` written little-endian at `at`,
/// grown with zeros as needed; `None` past the largest image.
pub open spec fn put_bytes(image: Seq<u8>, at: u64, v: u64, n: u64) -> Option<Seq<u8>> {
    if at + n > MAX_IMAGE_BYTES {
        None
    } else {
        let len = if image.len() >= at + n { image.len() } else { (at + n) as nat };
        Some(
            Seq::new(
                len,
                |k: int|
                    if at <= k < at + n {
                        crate::machine::byte_of(v, (k - at) as nat)
                    } else if k < image.len() {
                        image[k]
                    } else {
                        0u8
                    },
            ),
        )
    }
}

/// The values of `.write` from its value `j` on, at `addr`.
pub open spec fn write_values(es: Seq<Expr>, j: int, size: Size, addr: u64, labels: Seq<Option<u64>>, image: Seq<u8>) -> Result<Seq<u8>, AsmError>
    decreases es.len() - j,
{
    if j < 0 || j >= es.len() {
        Ok(image)
    } else {
        match eval_spec(es[j], labels, addr) {
            Err(err) => Err(err),
            Ok(v) => match put_bytes(image, addr.wrapping_add(size.bytes().wrapping_mul(j as u64)), v, size.bytes()) {
                None => Err(AsmError::ImageTooLarge),
                Some(next) => write_values(es, j + 1, size, addr, labels, next),
            },
        }
    }
}

/// The second pass from item `i` at address `addr`: the image.
pub open spec fn pass2_spec(items: Seq<Item>, i: int, addr: u64, labels: Seq<Option<u64>>, image: Seq<u8>) -> Result<Seq<u8>, AsmError>
    decreases items.len() - i,
{
    if i < 0 || i >= items.len() {
        Ok(image)
    } else {
        match items[i] {
            Item::Instruction(ins) => {
                let pc = align4(addr);
                match instruction_spec(ins.mnemonic, ins.condition, ins.size, ins.operands@, labels, pc) {
                    Err(err) => Err(err),
                    Ok(w) => match put_bytes(image, pc, w as u64, 4) {
                        None => Err(AsmError::ImageTooLarge),
                        Some(next) => pass2_spec(items, i + 1, pc.wrapping_add(4), labels, next),
                    },
                }
            },
            Item::Addr(e) => match eval_spec(e, labels, addr) {
                Err(err) => Err(err),
                Ok(v) => pass2_spec(items, i + 1, v, labels, image),
            },
            Item::Write(size, es) => match write_values(es@, 0, size, addr, labels, image) {
                Err(err) => Err(err),
                Ok(next) => pass2_spec(
                    items,
                    i + 1,
                    addr.wrapping_add(size.bytes().wrapping_mul(es@.len() as u64)),
                    labels,
                    next,
                ),
            },
            _ => pass2_spec(items, i + 1, addr, labels, image),
        }
    }
}

/// `n` unknown labels.
pub open spec fn no_labels(n: nat) -> Seq<Option<u64>> {
    Seq::new(n, |i: int| None::<u64>)
}

/// Assembling a source whose labels are numbered below `label_count`: the
/// first pass gives the labels' values, the second the image, both from
/// address 0.
pub open spec fn assemble_spec(items: Seq<Item>, label_count: nat) -> Result<Seq<u8>, AsmError> {
    match pass1_spec(items, 0, 0, no_labels(label_count)) {
        Err(err) => Err(err),
        Ok(labels) => pass2_spec(items, 0, 0, labels, Seq::empty()),
    }
}

/// Assembling is a function of the source: the same items give the same
/// image, byte for byte, or the same error.
pub proof fn lemma_assemble_is_deterministic(a: Seq<Item>, b: Seq<Item>, label_count: nat)
    requires
        a == b,
    ensures
        assemble_spec(a, label_count) == assemble_spec(b, label_count),
{
}

fn align_up(a: u64) -> (r: u64)
    ensures
        r == align4(a),
{
    a.wrapping_add(3) & !3u64
}

fn follows_instruction(items: &Vec<Item>, i: usize) -> (r: bool)
    ensures
        r == instruction_follows(items@, i as int),
{
    let mut j = i;
    while j < items.len()
        invariant
            i <= j,
            instruction_follows(items@, i as int) == instruction_follows(items@, j as int),
        decreases items@.len() - j,
    {
        match &items[j] {
            Item::Label(_) => {},
            Item::Instruction(_) => {
                return true;
            },
            _ => {
                return false;
            },
        }
        j = j + 1;
    }
    false
}

/// The first pass: the value of every label, by number.
pub fn resolve_labels(items: &Vec<Item>, label_count: usize) -> (r: Result<Vec<Option<u64>>, AsmError>)
    ensures
        match r {
            Ok(l) => pass1_spec(items@, 0, 0, no_labels(label_count as nat)) == Ok::<Seq<Option<u64>>, AsmError>(l@),
            Err(err) => pass1_spec(items@, 0, 0, no_labels(label_count as nat)) == Err::<Seq<Option<u64>>, AsmError>(err),
        },
{
    let mut labels: Vec<Option<u64>> = Vec::new();
    while labels.len() < label_count
        invariant
            labels@.len() <= label_count,
            forall|k: int| 0 <= k < labels@.len() ==> labels@[k].is_none(),
        decreases label_count - labels@.len(),
    {
        labels.push(None);
    }
    assert(labels@ =~= no_labels(label_count as nat));
    let mut addr: u64 = 0;
    let mut i: usize = 0;
    while i < items.len()
        invariant
            i <= items@.len(),
            pass1_spec(items@, 0, 0, no_labels(label_count as nat)) == pass1_spec(items@, i as int, addr, labels@),
        decreases items@.len() - i,
    {
        match &items[i] {
            Item::Label(id) => {
                let at = if follows_instruction(items, i + 1) { align_up(addr) } else { addr };
                if *id >= labels.len() {
                    return Err(AsmError::UnknownLabel);
                }
                if labels[*id].is_some() {
                    return Err(AsmError::DuplicateLabel);
                }
                labels.set(*id, Some(at));
            },
            Item::Instruction(_) => {
                addr = align_up(addr).wrapping_add(4);
            },
            Item::Addr(e) => match evaluate_immediate(e, &labels, addr) {
                Err(err) => {
                    return Err(err);
                },
                Ok(v) => {
                    addr = v;
                },
            },
            Item::Write(size, es) => {
                let n = size.byte_size() as u64;
                addr = addr.wrapping_add(n.wrapping_mul(es.len() as u64));
            },
            Item::Def(id, e) => match evaluate_immediate(e, &labels, addr) {
                Err(err) => {
                    return Err(err);
                },
                Ok(v) => {
                    if *id >= labels.len() {
                        return Err(AsmError::UnknownLabel);
                    }
                    labels.set(*id, Some(v));
                },
            },
        }
        i = i + 1;
    }
    Ok(labels)
}

fn put_bytes_into(image: &mut Vec<u8>, at: u64, v: u64, n: u64) -> (r: bool)
    requires
        n <= 8,
    ensures
        match put_bytes(old(image)@, at, v, n) {
            None => !r && final(image)@ == old(image)@,
            Some(next) => r && final(image)@ == next,
        },
{
    if at > MAX_IMAGE_BYTES || n > MAX_IMAGE_BYTES - at {
        return false;
    }
    let end = (at + n) as usize;
    let old_len = image.len();
    while image.len() < end
        invariant
            old_len == old(image)@.len(),
            old_len <= image@.len() <= (if old_len >= end { old_len as nat } else { end as nat }),
            end == at + n,
            forall|k: int| 0 <= k < old_len ==> image@[k] == old(image)@[k],
            forall|k: int| old_len <= k < image@.len() ==> image@[k] == 0,
        decreases end - image@.len(),
    {
        image.push(0);
    }
    let start = at as usize;
    let mut i: usize = start;
    while i < end
        invariant
            start <= i <= end,
            start == at,
            end == at + n,
            n <= 8,
            image@.len() == (if old_len >= end { old_len as nat } else { end as nat }),
            old_len == old(image)@.len(),
            forall|k: int| start <= k < i ==> image@[k] == crate::machine::byte_of(v, (k - start) as nat),
            forall|k: int| 0 <= k < image@.len() && !(start <= k < i) ==> image@[k] == (if k < old_len {
                old(image)@[k]
            } else {
                0u8
            }),
        decreases end - i,
    {
        let k = (i - start) as u64;
        image.set(i, ((v >> (8 * k)) & 0xff) as u8);
        i = i + 1;
    }
    assert(image@ =~= put_bytes(old(image)@, at, v, n).unwrap());
    true
}

/// The second pass: the image, given the labels' values.
pub fn emit_image(items: &Vec<Item>, labels: &Vec<Option<u64>>) -> (r: Result<Vec<u8>, AsmError>)
    ensures
        match r {
            Ok(img) => pass2_spec(items@, 0, 0, labels@, Seq::empty()) == Ok::<Seq<u8>, AsmError>(img@),
            Err(err) => pass2_spec(items@, 0, 0, labels@, Seq::empty()) == Err::<Seq<u8>, AsmError>(err),
        },
{
    let mut image: Vec<u8> = Vec::new();
    let mut addr: u64 = 0;
    let mut i: usize = 0;
    while i < items.len()
        invariant
            i <= items@.len(),
            pass2_spec(items@, 0, 0, labels@, Seq::empty()) == pass2_spec(items@, i as int, addr, labels@, image@),
        decreases items@.len() - i,
    {
        match &items[i] {
            Item::Instruction(ins) => {
                let pc = align_up(addr);
                match encode_instruction(ins, labels, pc) {
                    Err(err) => {
                        return Err(err);
                    },
                    Ok(w) => {
                        if !put_bytes_into(&mut image, pc, w as u64, 4) {
                            return Err(AsmError::ImageTooLarge);
                        }
                        addr = pc.wrapping_add(4);
                    },
                }
            },
            Item::Addr(e) => match evaluate_immediate(e, labels, addr) {
                Err(err) => {
                    return Err(err);
                },
                Ok(v) => {
                    addr = v;
                },
            },
            Item::Write(size, es) => {
                let n = size.byte_size() as u64;
                let ghost img0 = image@;
                let mut j: usize = 0;
                while j < es.len()
                    invariant
                        j <= es@.len(),
                        n == size.bytes(),
                        i < items@.len(),
                        items@[i as int] == Item::Write(*size, *es),
                        pass2_spec(items@, 0, 0, labels@, Seq::empty()) == pass2_spec(items@, i as int, addr, labels@, img0),
                        write_values(es@, 0, *size, addr, labels@, img0) == write_values(es@, j as int, *size, addr, labels@, image@),
                    decreases es@.len() - j,
                {
                    match evaluate_immediate(&es[j], labels, addr) {
                        Err(err) => {
                            return Err(err);
                        },
                        Ok(v) => {
                            if !put_bytes_into(&mut image, addr.wrapping_add(n.wrapping_mul(j as u64)), v, n) {
                                return Err(AsmError::ImageTooLarge);
                            }
                        },
                    }
                    j = j + 1;
                }
                addr = addr.wrapping_add(n.wrapping_mul(es.len() as u64));
            },
            _ => {},
        }
        i = i + 1;
    }
    Ok(image)
}

/// Assembles a source whose labels are numbered below `label_count` into a
/// flat little-endian image, in which a byte's offset is its address.
pub fn assemble(items: &Vec<Item>, label_count: usize) -> (r: Result<Vec<u8>, AsmError>)
    ensures
        match r {
            Ok(img) => assemble_spec(items@, label_count as nat) == Ok::<Seq<u8>, AsmError>(img@),
            Err(err) => assemble_spec(items@, label_count as nat) == Err::<Seq<u8>, AsmError>(err),
        },
{
    let labels = resolve_labels(items, label_count)?;
    emit_image(items, &labels)
}

} // verus!
