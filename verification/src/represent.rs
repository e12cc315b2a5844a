use vstd::prelude::*;

use crate::lex::{Pos, PosV, Tok, TokKind, TokV};
use crate::names::NameMap;
use crate::text::{all_ascii, ascii_chars, bytes_eq, decimal, decode_utf8, utf8_text};
use crate::types::Datatype;
use vstd::string::StringSliceAdditionalSpecFns;

verus! {

/// The kinds of instruction of the intermediate representation.
#[derive(Debug, PartialEq, Eq, Structural, Clone, Copy)]
pub enum InstrKind {
    /// Removed by the optimiser; emits nothing.
    Culled,
    Comment,
    DataSegment,
    /// Declares a string in the data segment.
    DeclStr,
    /// Makes a system call.
    Syscall,
    /// Pushes a register, an integer literal or a string onto the stack.
    Push,
    /// Pops the stack into a register.
    Pop,
    /// Shifts register A left by register B bits.
    Shl,
    /// Shifts register A right by register B bits.
    Shr,
    /// Bitwise or of A and B, into A.
    BOr,
    /// Bitwise and of A and B, into A.
    BAnd,
    /// Adds B to A.
    Add,
    /// Multiplies A by B.
    Mul,
    /// Divides A by B, mangling D; the quotient lands in RAX.
    DivAByBManglingD,
    /// Subtracts B from A.
    Sub,
    /// Copies B into register A.
    CopyToRegA,
    /// Copies a register into a variable.
    CopyRegToVar,
    /// Copies a variable into a register.
    CopyVarToReg,
    /// Copies register A to the address in register B.
    CopyRegAToAdrAtRegB,
    Label,
    /// Returns to the caller.
    Return,
    /// Jumps to a label if the operand is 0.
    JZero,
    /// Stores 1 in A if B < A, else 0.
    RegBLtA,
    /// Stores 1 in A if B <= A, else 0.
    RegBLeA,
    /// Stores 1 in A if B > A, else 0.
    RegBGtA,
    /// Stores 1 in A if B >= A, else 0.
    RegBGeA,
    /// Stores 1 in A if B == A, else 0.
    RegBEqA,
    /// Stores 1 in A if B != A, else 0.
    RegBNeA,
    /// Stores 1 in A if literal B != A, else 0.
    RegBNeIntLitA,
    /// Frees bytes of the stack.
    DeallocateStack,
    /// Jumps to a label.
    JLabel,
    /// Calls a function by its label.
    Call,
    /// Negates a register.
    NegReg,
    /// Loads what the address in a register points to into it.
    DerefReg,
    /// Subtracts an immediate value from a register.
    SubFromReg,
}

/// The widths of a register, in the words of the assembler.
#[derive(Debug, PartialEq, Eq, Structural, Clone, Copy)]
pub enum RegisterSize {
    Byte,
    Word,
    DWord,
    QWord,
}

/// Whether a number of bytes is the width of a register.
pub open spec fn valid_size(size: i64) -> bool {
    size == 1 || size == 2 || size == 4 || size == 8
}

/// The width of a register of `size` bytes.
pub open spec fn size_of_bytes(size: i64) -> RegisterSize {
    if size == 1 {
        RegisterSize::Byte
    } else if size == 2 {
        RegisterSize::Word
    } else if size == 4 {
        RegisterSize::DWord
    } else {
        RegisterSize::QWord
    }
}

impl RegisterSize {
    /// The width of a register of `size` bytes.
    pub fn from_i64(size: i64) -> (r: Self)
        requires
            valid_size(size),
        ensures
            r == size_of_bytes(size),
    {
        if size == 1 {
            RegisterSize::Byte
        } else if size == 2 {
            RegisterSize::Word
        } else if size == 4 {
            RegisterSize::DWord
        } else {
            RegisterSize::QWord
        }
    }

    /// The assembler's word for the width.
    pub open spec fn word(self) -> &'static str {
        match self {
            RegisterSize::QWord => "qword",
            RegisterSize::DWord => "dword",
            RegisterSize::Word => "word",
            RegisterSize::Byte => "byte",
        }
    }

    /// The assembler's word for the width.
    pub fn keyword(&self) -> (r: &'static str)
        ensures
            r == self.word(),
    {
        match self {
            RegisterSize::QWord => "qword",
            RegisterSize::DWord => "dword",
            RegisterSize::Word => "word",
            RegisterSize::Byte => "byte",
        }
    }
}

/// The general purpose registers of x86-64.
#[derive(Debug, PartialEq, Eq, Structural, Clone, Copy)]
pub enum Register {
    RAX,
    RCX,
    RDX,
    RBX,
    RSP,
    RBP,
    RSI,
    RDI,
    R8,
    R9,
    R10,
    R11,
    R12,
    R13,
    R14,
    R15,
}

/// The registers that the kernel takes the number and the arguments of a
/// system call in.
pub open spec fn kernel_reg(i: int) -> Register {
    if i == 0 {
        Register::RAX
    } else if i == 1 {
        Register::RDI
    } else if i == 2 {
        Register::RSI
    } else if i == 3 {
        Register::RDX
    } else if i == 4 {
        Register::R10
    } else if i == 5 {
        Register::R9
    } else {
        Register::R8
    }
}

/// The registers that a function takes its arguments in.
pub open spec fn user_reg(i: int) -> Register {
    if i == 0 {
        Register::RDI
    } else if i == 1 {
        Register::RSI
    } else if i == 2 {
        Register::RDX
    } else if i == 3 {
        Register::RCX
    } else if i == 4 {
        Register::R8
    } else {
        Register::R9
    }
}

/// The register that the kernel takes the `i`-th word of a system call in.
pub fn kernel_reg_order(i: usize) -> (r: Register)
    requires
        i < 7,
    ensures
        r == kernel_reg(i as int),
{
    if i == 0 {
        Register::RAX
    } else if i == 1 {
        Register::RDI
    } else if i == 2 {
        Register::RSI
    } else if i == 3 {
        Register::RDX
    } else if i == 4 {
        Register::R10
    } else if i == 5 {
        Register::R9
    } else {
        Register::R8
    }
}

/// The register that a function takes its `i`-th argument in.
pub fn user_reg_order(i: usize) -> (r: Register)
    requires
        i < 6,
    ensures
        r == user_reg(i as int),
{
    if i == 0 {
        Register::RDI
    } else if i == 1 {
        Register::RSI
    } else if i == 2 {
        Register::RDX
    } else if i == 3 {
        Register::RCX
    } else if i == 4 {
        Register::R8
    } else {
        Register::R9
    }
}

impl Register {
    /// The assembler's name for the register at a width.
    pub open spec fn name(self, w: RegisterSize) -> &'static str {
        match w {
            RegisterSize::Byte => match self {
                Register::RAX => "al",
                Register::RCX => "cl",
                Register::RDX => "dl",
                Register::RBX => "bl",
                Register::RSP => "spl",
                Register::RBP => "bpl",
                Register::RSI => "sil",
                Register::RDI => "dil",
                Register::R8 => "r8b",
                Register::R9 => "r9b",
                Register::R10 => "r10b",
                Register::R11 => "r11b",
                Register::R12 => "r12b",
                Register::R13 => "r13b",
                Register::R14 => "r14b",
                Register::R15 => "r15b",
            },
            RegisterSize::Word => match self {
                Register::RAX => "ax",
                Register::RCX => "cx",
                Register::RDX => "dx",
                Register::RBX => "bx",
                Register::RSP => "sp",
                Register::RBP => "bp",
                Register::RSI => "si",
                Register::RDI => "di",
                Register::R8 => "r8w",
                Register::R9 => "r9w",
                Register::R10 => "r10w",
                Register::R11 => "r11w",
                Register::R12 => "r12w",
                Register::R13 => "r13w",
                Register::R14 => "r14w",
                Register::R15 => "r15w",
            },
            RegisterSize::DWord => match self {
                Register::RAX => "eax",
                Register::RCX => "ecx",
                Register::RDX => "edx",
                Register::RBX => "ebx",
                Register::RSP => "esp",
                Register::RBP => "ebp",
                Register::RSI => "esi",
                Register::RDI => "edi",
                Register::R8 => "r8d",
                Register::R9 => "r9d",
                Register::R10 => "r10d",
                Register::R11 => "r11d",
                Register::R12 => "r12d",
                Register::R13 => "r13d",
                Register::R14 => "r14d",
                Register::R15 => "r15d",
            },
            RegisterSize::QWord => match self {
                Register::RAX => "rax",
                Register::RCX => "rcx",
                Register::RDX => "rdx",
                Register::RBX => "rbx",
                Register::RSP => "rsp",
                Register::RBP => "rbp",
                Register::RSI => "rsi",
                Register::RDI => "rdi",
                Register::R8 => "r8",
                Register::R9 => "r9",
                Register::R10 => "r10",
                Register::R11 => "r11",
                Register::R12 => "r12",
                Register::R13 => "r13",
                Register::R14 => "r14",
                Register::R15 => "r15",
            },
        }
    }

    /// The assembler's name for the register at a width of `size` bytes.
    pub fn size(&self, size: i64) -> (r: &'static str)
        requires
            valid_size(size),
        ensures
            r == self.name(size_of_bytes(size)),
    {
        let w = RegisterSize::from_i64(size);
        match w {
            RegisterSize::Byte => match self {
                Register::RAX => "al",
                Register::RCX => "cl",
                Register::RDX => "dl",
                Register::RBX => "bl",
                Register::RSP => "spl",
                Register::RBP => "bpl",
                Register::RSI => "sil",
                Register::RDI => "dil",
                Register::R8 => "r8b",
                Register::R9 => "r9b",
                Register::R10 => "r10b",
                Register::R11 => "r11b",
                Register::R12 => "r12b",
                Register::R13 => "r13b",
                Register::R14 => "r14b",
                Register::R15 => "r15b",
            },
            RegisterSize::Word => match self {
                Register::RAX => "ax",
                Register::RCX => "cx",
                Register::RDX => "dx",
                Register::RBX => "bx",
                Register::RSP => "sp",
                Register::RBP => "bp",
                Register::RSI => "si",
                Register::RDI => "di",
                Register::R8 => "r8w",
                Register::R9 => "r9w",
                Register::R10 => "r10w",
                Register::R11 => "r11w",
                Register::R12 => "r12w",
                Register::R13 => "r13w",
                Register::R14 => "r14w",
                Register::R15 => "r15w",
            },
            RegisterSize::DWord => match self {
                Register::RAX => "eax",
                Register::RCX => "ecx",
                Register::RDX => "edx",
                Register::RBX => "ebx",
                Register::RSP => "esp",
                Register::RBP => "ebp",
                Register::RSI => "esi",
                Register::RDI => "edi",
                Register::R8 => "r8d",
                Register::R9 => "r9d",
                Register::R10 => "r10d",
                Register::R11 => "r11d",
                Register::R12 => "r12d",
                Register::R13 => "r13d",
                Register::R14 => "r14d",
                Register::R15 => "r15d",
            },
            RegisterSize::QWord => match self {
                Register::RAX => "rax",
                Register::RCX => "rcx",
                Register::RDX => "rdx",
                Register::RBX => "rbx",
                Register::RSP => "rsp",
                Register::RBP => "rbp",
                Register::RSI => "rsi",
                Register::RDI => "rdi",
                Register::R8 => "r8",
                Register::R9 => "r9",
                Register::R10 => "r10",
                Register::R11 => "r11",
                Register::R12 => "r12",
                Register::R13 => "r13",
                Register::R14 => "r14",
                Register::R15 => "r15",
            },
        }
    }
}

/// A named place in the code: its name, and its number among the labels
/// placed so far (the largest `usize` while it is not placed).
#[derive(Debug)]
pub struct Label {
    pub name: Vec<u8>,
    pub index: usize,
}

/// The value of a `Label`.
pub struct LabelV {
    pub name: Seq<u8>,
    pub index: usize,
}

impl View for Label {
    type V = LabelV;

    open spec fn view(&self) -> LabelV {
        LabelV { name: self.name@, index: self.index }
    }
}

impl Clone for Label {
    fn clone(&self) -> (r: Self)
        ensures
            r@ == self@,
    {
        Label { name: self.name.clone(), index: self.index }
    }
}

/// A label that is not placed yet.
pub open spec fn label_v(name: Seq<u8>) -> LabelV {
    LabelV { name, index: usize::MAX }
}

/// The tail of a label made at a position: row and column counted from 1.
pub open spec fn pos_tail(p: PosV) -> Seq<u8> {
    decimal((p.row + 1) as nat) + seq![95u8] + decimal((p.col + 1) as nat)
}

/// Whether a position can be counted from 1 in 32 bits.
pub open spec fn pos_ok(p: PosV) -> bool {
    p.row < u32::MAX && p.col < u32::MAX
}

impl Label {
    /// A label named by a prefix alone.
    pub fn new(prefix: &'static str) -> (r: Self)
        ensures
            r@ == label_v(prefix.spec_bytes()),
    {
        let mut name: Vec<u8> = Vec::new();
        name.extend_from_slice(prefix.as_bytes());
        assert(name@ =~= prefix.spec_bytes());
        Label { name, index: usize::MAX }
    }

    /// A label named by a prefix and a name.
    pub fn new_named(prefix: &'static str, name: &Vec<u8>) -> (r: Self)
        ensures
            r@ == label_v(prefix.spec_bytes() + name@),
    {
        let mut label: Vec<u8> = Vec::new();
        label.extend_from_slice(prefix.as_bytes());
        label.extend_from_slice(name.as_slice());
        assert(label@ =~= prefix.spec_bytes() + name@);
        Label { name: label, index: usize::MAX }
    }

    /// A label named by a prefix and a position, as `row_col`.
    pub fn new_at(prefix: &'static str, pos: &Pos) -> (r: Self)
        ensures
            r@ == label_v(prefix.spec_bytes() + decimal(pos.row as nat) + seq![95u8] + decimal(pos.col as nat)),
    {
        let mut label: Vec<u8> = Vec::new();
        label.extend_from_slice(prefix.as_bytes());
        let tail = pos.as_vec();
        label.extend_from_slice(tail.as_slice());
        assert(label@ =~= prefix.spec_bytes() + decimal(pos.row as nat) + seq![95u8] + decimal(pos.col as nat));
        Label { name: label, index: usize::MAX }
    }

    /// The name as text, where it is valid UTF-8.
    pub fn name_str(&self) -> (r: Option<String>)
        ensures
            r is Some <==> utf8_text(self.name@) is Some,
            r matches Some(t) ==> utf8_text(self.name@) == Some(t@),
            all_ascii(self.name@) ==> r is Some && r.unwrap()@ == ascii_chars(self.name@),
    {
        decode_utf8(&self.name)
    }

    /// Whether two labels are the same.
    pub fn same(&self, other: &Label) -> (r: bool)
        ensures
            r == (self@ == other@),
    {
        self.index == other.index && bytes_eq(self.name.as_slice(), other.name.as_slice())
    }
}

/// An operand of an instruction.
#[derive(Debug)]
#[allow(inconsistent_fields)]
pub enum Operand {
    Blank,
    Register { name: Register, size: i64 },
    StackOffset { value: i64, size: i64 },
    LiteralInt { value: i64 },
    LiteralStr { value: i64 },
    Name { name: Label },
    Bytes { bytes: Vec<u8> },
    Comment { comment: String },
}

/// The value of an `Operand`.
#[allow(inconsistent_fields)]
pub enum OperandV {
    Blank,
    Register { name: Register, size: i64 },
    StackOffset { value: i64, size: i64 },
    LiteralInt { value: i64 },
    LiteralStr { value: i64 },
    Name { name: LabelV },
    Bytes { bytes: Seq<u8> },
    Comment { comment: Seq<char> },
}

impl View for Operand {
    type V = OperandV;

    open spec fn view(&self) -> OperandV {
        match self {
            Operand::Blank => OperandV::Blank,
            Operand::Register { name, size } => OperandV::Register { name: *name, size: *size },
            Operand::StackOffset { value, size } => OperandV::StackOffset { value: *value, size: *size },
            Operand::LiteralInt { value } => OperandV::LiteralInt { value: *value },
            Operand::LiteralStr { value } => OperandV::LiteralStr { value: *value },
            Operand::Name { name } => OperandV::Name { name: name@ },
            Operand::Bytes { bytes } => OperandV::Bytes { bytes: bytes@ },
            Operand::Comment { comment } => OperandV::Comment { comment: comment@ },
        }
    }
}

impl Clone for Operand {
    fn clone(&self) -> (r: Self)
        ensures
            r@ == self@,
    {
        match self {
            Operand::Blank => Operand::Blank,
            Operand::Register { name, size } => Operand::Register { name: *name, size: *size },
            Operand::StackOffset { value, size } => Operand::StackOffset { value: *value, size: *size },
            Operand::LiteralInt { value } => Operand::LiteralInt { value: *value },
            Operand::LiteralStr { value } => Operand::LiteralStr { value: *value },
            Operand::Name { name } => Operand::Name { name: name.clone() },
            Operand::Bytes { bytes } => Operand::Bytes { bytes: bytes.clone() },
            Operand::Comment { comment } => Operand::Comment { comment: comment.clone() },
        }
    }
}

impl Operand {
    /// The name of a register operand at its lowest byte.
    pub fn byte(&self) -> (r: String)
        requires
            self is Register,
        ensures
            *self matches Operand::Register { name, .. } ==> r@ == name.name(RegisterSize::Byte)@,
    {
        match self {
            Operand::Register { name, size: _ } => name.size(1).to_owned(),
            _ => String::new(),
        }
    }

    /// The width of a register or stack operand, in the assembler's words.
    pub fn size(&self) -> (r: String)
        requires
            *self matches Operand::Register { size, .. } ==> valid_size(size),
            *self matches Operand::StackOffset { size, .. } ==> valid_size(size),
            self is Register || self is StackOffset,
        ensures
            *self matches Operand::Register { size, .. } ==> r@ == size_of_bytes(size).word()@,
            *self matches Operand::StackOffset { size, .. } ==> r@ == size_of_bytes(size).word()@,
    {
        match self {
            Operand::Register { name: _, size } => RegisterSize::from_i64(*size).keyword().to_owned(),
            Operand::StackOffset { value: _, size } => RegisterSize::from_i64(*size).keyword().to_owned(),
            _ => String::new(),
        }
    }

    /// Whether two operands are the same.
    pub fn same(&self, other: &Operand) -> (r: bool)
        ensures
            r == (self@ == other@),
    {
        match (self, other) {
            (Operand::Blank, Operand::Blank) => true,
            (Operand::Register { name: a, size: s }, Operand::Register { name: b, size: t }) => *a == *b && *s == *t,
            (Operand::StackOffset { value: a, size: s }, Operand::StackOffset { value: b, size: t }) => *a == *b
                && *s == *t,
            (Operand::LiteralInt { value: a }, Operand::LiteralInt { value: b }) => *a == *b,
            (Operand::LiteralStr { value: a }, Operand::LiteralStr { value: b }) => *a == *b,
            (Operand::Name { name: a }, Operand::Name { name: b }) => a.same(b),
            (Operand::Bytes { bytes: a }, Operand::Bytes { bytes: b }) => bytes_eq(a.as_slice(), b.as_slice()),
            (Operand::Comment { comment: a }, Operand::Comment { comment: b }) => *a == *b,
            _ => false,
        }
    }
}

/// An instruction: its kind and two operands.
#[derive(Debug)]
pub struct Instr {
    pub kind: InstrKind,
    pub opera: Operand,
    pub operb: Operand,
}

/// The value of an `Instr`.
pub struct InstrV {
    pub kind: InstrKind,
    pub opera: OperandV,
    pub operb: OperandV,
}

impl View for Instr {
    type V = InstrV;

    open spec fn view(&self) -> InstrV {
        InstrV { kind: self.kind, opera: self.opera@, operb: self.operb@ }
    }
}

impl Clone for Instr {
    fn clone(&self) -> (r: Self)
        ensures
            r@ == self@,
    {
        Instr { kind: self.kind, opera: self.opera.clone(), operb: self.operb.clone() }
    }
}

/// The values of a sequence of instructions.
pub open spec fn instrs_view(s: Seq<Instr>) -> Seq<InstrV> {
    s.map_values(|i: Instr| i@)
}

/// An instruction with two operands.
pub open spec fn iv(kind: InstrKind, a: OperandV, b: OperandV) -> InstrV {
    InstrV { kind, opera: a, operb: b }
}

/// A register operand.
pub open spec fn reg(name: Register, size: i64) -> OperandV {
    OperandV::Register { name, size }
}

/// An integer literal operand.
pub open spec fn lit(value: i64) -> OperandV {
    OperandV::LiteralInt { value }
}

/// A label operand.
pub open spec fn name(l: LabelV) -> OperandV {
    OperandV::Name { name: l }
}

/// An operation on two registers of one width.
pub open spec fn regs_v(kind: InstrKind, a: Register, b: Register, size: i64) -> InstrV {
    iv(kind, reg(a, size), reg(b, size))
}

pub open spec fn comment_v(text: Seq<char>) -> InstrV {
    iv(InstrKind::Comment, OperandV::Comment { comment: text }, OperandV::Blank)
}

pub open spec fn push_reg_v(r: Register) -> InstrV {
    iv(InstrKind::Push, reg(r, 8), OperandV::Blank)
}

pub open spec fn pop_v(r: Register) -> InstrV {
    iv(InstrKind::Pop, reg(r, 8), OperandV::Blank)
}

pub open spec fn push_int_v(v: i64) -> InstrV {
    iv(InstrKind::Push, lit(v), OperandV::Blank)
}

pub open spec fn label_instr_v(l: LabelV) -> InstrV {
    iv(InstrKind::Label, name(l), OperandV::Blank)
}

pub open spec fn jlabel_v(l: LabelV) -> InstrV {
    iv(InstrKind::JLabel, name(l), OperandV::Blank)
}

pub open spec fn jzero_v(r: Register, l: LabelV, size: i64) -> InstrV {
    iv(InstrKind::JZero, reg(r, size), name(l))
}

pub open spec fn dealloc_v(bytes: i64) -> InstrV {
    iv(InstrKind::DeallocateStack, lit(bytes), OperandV::Blank)
}

pub open spec fn var_to_reg_v(r: Register, v: Var, size: i64) -> InstrV {
    iv(InstrKind::CopyVarToReg, reg(r, size), OperandV::StackOffset { value: v.offset, size })
}

pub open spec fn reg_to_var_v(v: Var, r: Register, size: i64) -> InstrV {
    iv(InstrKind::CopyRegToVar, OperandV::StackOffset { value: v.offset, size }, reg(r, size))
}

pub open spec fn reg_to_adr_v(a: Register, b: Register, size: i64) -> InstrV {
    iv(InstrKind::CopyRegAToAdrAtRegB, reg(a, size), reg(b, 8))
}

impl Instr {
    /// A comment.
    pub fn comment(comment: &'static str) -> (r: Self)
        ensures
            r@ == comment_v(comment@),
    {
        Instr { kind: InstrKind::Comment, opera: Operand::Comment { comment: comment.to_owned() }, operb: Operand::Blank }
    }

    /// The declaration of the `index`-th string of the data segment.
    pub fn decl_str(index: i64, bytes: Vec<u8>) -> (r: Self)
        ensures
            r@ == iv(InstrKind::DeclStr, lit(index), OperandV::Bytes { bytes: bytes@ }),
    {
        Instr { kind: InstrKind::DeclStr, opera: Operand::LiteralInt { value: index }, operb: Operand::Bytes { bytes } }
    }

    /// Pushes the address of the `index`-th string.
    pub fn push_str_lit(index: i64) -> (r: Self)
        ensures
            r@ == iv(InstrKind::Push, OperandV::LiteralStr { value: index }, OperandV::Blank),
    {
        Instr { kind: InstrKind::Push, opera: Operand::LiteralStr { value: index }, operb: Operand::Blank }
    }

    /// The start of the data segment.
    pub fn data_segment() -> (r: Self)
        ensures
            r@ == iv(InstrKind::DataSegment, OperandV::Blank, OperandV::Blank),
    {
        Instr { kind: InstrKind::DataSegment, opera: Operand::Blank, operb: Operand::Blank }
    }

    /// Subtracts an immediate value from a register.
    pub fn sub_from_reg(value: i64, name: Register, size: i64) -> (r: Self)
        ensures
            r@ == iv(InstrKind::SubFromReg, lit(value), reg(name, size)),
    {
        Instr {
            kind: InstrKind::SubFromReg,
            opera: Operand::LiteralInt { value },
            operb: Operand::Register { name, size },
        }
    }

    /// Pushes a register.
    pub fn push_reg(name: Register) -> (r: Self)
        ensures
            r@ == push_reg_v(name),
    {
        Instr { kind: InstrKind::Push, opera: Operand::Register { name, size: 8 }, operb: Operand::Blank }
    }

    /// Copies a variable into a register.
    pub fn copy_var_to_reg(name: Register, var: Var, size: i64) -> (r: Self)
        ensures
            r@ == var_to_reg_v(name, var, size),
    {
        Instr {
            kind: InstrKind::CopyVarToReg,
            opera: Operand::Register { name, size },
            operb: Operand::StackOffset { value: var.offset, size },
        }
    }

    /// Negates a register.
    pub fn neg_reg(name: Register, size: i64) -> (r: Self)
        ensures
            r@ == iv(InstrKind::NegReg, reg(name, size), OperandV::Blank),
    {
        Instr { kind: InstrKind::NegReg, opera: Operand::Register { name, size }, operb: Operand::Blank }
    }

    /// An operation on two registers of one width.
    pub(crate) fn regs(kind: InstrKind, a: Register, b: Register, size: i64) -> (r: Self)
        ensures
            r@ == regs_v(kind, a, b, size),
    {
        Instr { kind, opera: Operand::Register { name: a, size }, operb: Operand::Register { name: b, size } }
    }

    /// Shifts `a` left by `b` bits.
    pub fn shl(a: Register, b: Register, size: i64) -> (r: Self)
        ensures
            r@ == regs_v(InstrKind::Shl, a, b, size),
    {
        Self::regs(InstrKind::Shl, a, b, size)
    }

    /// Shifts `a` right by `b` bits.
    pub fn shr(a: Register, b: Register, size: i64) -> (r: Self)
        ensures
            r@ == regs_v(InstrKind::Shr, a, b, size),
    {
        Self::regs(InstrKind::Shr, a, b, size)
    }

    /// Bitwise or of `a` and `b`, into `a`.
    pub fn bor(a: Register, b: Register, size: i64) -> (r: Self)
        ensures
            r@ == regs_v(InstrKind::BOr, a, b, size),
    {
        Self::regs(InstrKind::BOr, a, b, size)
    }

    /// Bitwise and of `a` and `b`, into `a`.
    pub fn band(a: Register, b: Register, size: i64) -> (r: Self)
        ensures
            r@ == regs_v(InstrKind::BAnd, a, b, size),
    {
        Self::regs(InstrKind::BAnd, a, b, size)
    }

    /// Pops the stack into a register.
    pub fn pop(name: Register) -> (r: Self)
        ensures
            r@ == pop_v(name),
    {
        Instr { kind: InstrKind::Pop, opera: Operand::Register { name, size: 8 }, operb: Operand::Blank }
    }

    /// Loads what a register points to into it.
    pub fn deref_reg(name: Register, size: i64) -> (r: Self)
        ensures
            r@ == iv(InstrKind::DerefReg, reg(name, size), OperandV::Blank),
    {
        Instr { kind: InstrKind::DerefReg, opera: Operand::Register { name, size }, operb: Operand::Blank }
    }

    /// Copies a register into a variable.
    pub fn copy_reg_to_var(var: Var, name: Register, size: i64) -> (r: Self)
        ensures
            r@ == reg_to_var_v(var, name, size),
    {
        Instr {
            kind: InstrKind::CopyRegToVar,
            opera: Operand::StackOffset { value: var.offset, size },
            operb: Operand::Register { name, size },
        }
    }

    /// Subtracts `b` from `a`.
    pub fn sub_regs(a: Register, b: Register, size: i64) -> (r: Self)
        ensures
            r@ == regs_v(InstrKind::Sub, a, b, size),
    {
        Self::regs(InstrKind::Sub, a, b, size)
    }

    /// Adds `b` to `a`.
    pub fn add_regs(a: Register, b: Register, size: i64) -> (r: Self)
        ensures
            r@ == regs_v(InstrKind::Add, a, b, size),
    {
        Self::regs(InstrKind::Add, a, b, size)
    }

    /// Multiplies `a` by `b`.
    pub fn mul_regs(a: Register, b: Register, size: i64) -> (r: Self)
        ensures
            r@ == regs_v(InstrKind::Mul, a, b, size),
    {
        Self::regs(InstrKind::Mul, a, b, size)
    }

    /// Divides `a` by `b`, mangling RDX.
    pub fn div_regs_mangle_d(a: Register, b: Register, size: i64) -> (r: Self)
        ensures
            r@ == regs_v(InstrKind::DivAByBManglingD, a, b, size),
    {
        Self::regs(InstrKind::DivAByBManglingD, a, b, size)
    }

    /// Copies an integer into a register.
    pub fn copy_int_lit_b_to_a(a: Register, b: i64, size: i64) -> (r: Self)
        ensures
            r@ == iv(InstrKind::CopyToRegA, reg(a, size), lit(b)),
    {
        Instr { kind: InstrKind::CopyToRegA, opera: Operand::Register { name: a, size }, operb: Operand::LiteralInt { value: b } }
    }

    /// Copies register `b` into register `a`.
    pub fn copy_reg_b_to_a(a: Register, b: Register, size: i64) -> (r: Self)
        ensures
            r@ == regs_v(InstrKind::CopyToRegA, a, b, size),
    {
        Self::regs(InstrKind::CopyToRegA, a, b, size)
    }

    /// Places a label.
    pub fn label(l: &Label) -> (r: Self)
        ensures
            r@ == label_instr_v(l@),
    {
        Instr { kind: InstrKind::Label, opera: Operand::Name { name: l.clone() }, operb: Operand::Blank }
    }

    /// Returns to the caller.
    pub fn returnn() -> (r: Self)
        ensures
            r@ == iv(InstrKind::Return, OperandV::Blank, OperandV::Blank),
    {
        Instr { kind: InstrKind::Return, opera: Operand::Blank, operb: Operand::Blank }
    }

    /// Jumps to a label if a register holds 0.
    pub fn jzero(name: Register, label: &Label, size: i64) -> (r: Self)
        ensures
            r@ == jzero_v(name, label@, size),
    {
        Instr { kind: InstrKind::JZero, opera: Operand::Register { name, size }, operb: Operand::Name { name: label.clone() } }
    }

    /// Jumps to a label.
    pub fn jlabel(label: &Label) -> (r: Self)
        ensures
            r@ == jlabel_v(label@),
    {
        Instr { kind: InstrKind::JLabel, opera: Operand::Name { name: label.clone() }, operb: Operand::Blank }
    }

    /// Frees bytes of the stack.
    pub fn dealloc_stack(bytes: i64) -> (r: Self)
        ensures
            r@ == dealloc_v(bytes),
    {
        Instr { kind: InstrKind::DeallocateStack, opera: Operand::LiteralInt { value: bytes }, operb: Operand::Blank }
    }

    /// Calls a function by its label.
    pub fn call(label: &Label) -> (r: Self)
        ensures
            r@ == iv(InstrKind::Call, name(label@), OperandV::Blank),
    {
        Instr { kind: InstrKind::Call, opera: Operand::Name { name: label.clone() }, operb: Operand::Blank }
    }

    /// Makes a system call.
    pub fn syscall() -> (r: Self)
        ensures
            r@ == iv(InstrKind::Syscall, OperandV::Blank, OperandV::Blank),
    {
        Instr { kind: InstrKind::Syscall, opera: Operand::Blank, operb: Operand::Blank }
    }

    /// Pushes an integer.
    pub fn push_int_lit(val: i64) -> (r: Self)
        ensures
            r@ == push_int_v(val),
    {
        Instr { kind: InstrKind::Push, opera: Operand::LiteralInt { value: val }, operb: Operand::Blank }
    }

    /// 1 into `a` if `b < a`, else 0.
    pub fn reg_b_lt_a(a: Register, b: Register, size: i64) -> (r: Self)
        ensures
            r@ == regs_v(InstrKind::RegBLtA, a, b, size),
    {
        Self::regs(InstrKind::RegBLtA, a, b, size)
    }

    /// 1 into `a` if `b <= a`, else 0.
    pub fn reg_b_le_a(a: Register, b: Register, size: i64) -> (r: Self)
        ensures
            r@ == regs_v(InstrKind::RegBLeA, a, b, size),
    {
        Self::regs(InstrKind::RegBLeA, a, b, size)
    }

    /// 1 into `a` if `b > a`, else 0.
    pub fn reg_b_gt_a(a: Register, b: Register, size: i64) -> (r: Self)
        ensures
            r@ == regs_v(InstrKind::RegBGtA, a, b, size),
    {
        Self::regs(InstrKind::RegBGtA, a, b, size)
    }

    /// 1 into `a` if `b >= a`, else 0.
    pub fn reg_b_ge_a(a: Register, b: Register, size: i64) -> (r: Self)
        ensures
            r@ == regs_v(InstrKind::RegBGeA, a, b, size),
    {
        Self::regs(InstrKind::RegBGeA, a, b, size)
    }

    /// 1 into `a` if `b == a`, else 0.
    pub fn reg_b_eq_a(a: Register, b: Register, size: i64) -> (r: Self)
        ensures
            r@ == regs_v(InstrKind::RegBEqA, a, b, size),
    {
        Self::regs(InstrKind::RegBEqA, a, b, size)
    }

    /// 1 into `a` if the integer `b` equals `a`, else 0.
    pub fn reg_b_eq_int_lit_a(a: Register, b: i64, size: i64) -> (r: Self)
        ensures
            r@ == iv(InstrKind::RegBEqA, reg(a, size), lit(b)),
    {
        Instr { kind: InstrKind::RegBEqA, opera: Operand::Register { name: a, size }, operb: Operand::LiteralInt { value: b } }
    }

    /// 1 into `a` if `b != a`, else 0.
    pub fn reg_b_ne_a(a: Register, b: Register, size: i64) -> (r: Self)
        ensures
            r@ == regs_v(InstrKind::RegBNeA, a, b, size),
    {
        Self::regs(InstrKind::RegBNeA, a, b, size)
    }

    /// 1 into `b` if it differs from the integer `a`, else 0.
    pub fn int_lit_a_ne_reg_b(a: i64, b: Register, size: i64) -> (r: Self)
        ensures
            r@ == iv(InstrKind::RegBNeIntLitA, lit(a), reg(b, size)),
    {
        Instr { kind: InstrKind::RegBNeIntLitA, opera: Operand::LiteralInt { value: a }, operb: Operand::Register { name: b, size } }
    }

    /// Copies register `a` to the address in register `b`.
    pub fn copy_reg_to_adr_at_reg_b(a: Register, b: Register, size: i64) -> (r: Self)
        ensures
            r@ == reg_to_adr_v(a, b, size),
    {
        Instr {
            kind: InstrKind::CopyRegAToAdrAtRegB,
            opera: Operand::Register { name: a, size },
            operb: Operand::Register { name: b, size: 8 },
        }
    }
}

/// A variable on the stack: its type and its offset from the base pointer.
#[derive(Debug, PartialEq, Eq, Structural, Clone, Copy)]
pub struct Var {
    pub typ: Datatype,
    pub offset: i64,
}

impl View for Var {
    type V = Var;

    open spec fn view(&self) -> Var {
        *self
    }
}

/// The scope that code is generated in: the loop it is in (its token; a
/// blank one outside loops), the variables, and the next free stack offset.
pub struct Context {
    pub ident: Tok,
    pub locals: NameMap<Var>,
    pub stack_ix: i64,
}

/// The value of a `Context`.
pub struct CtxV {
    pub ident: TokV,
    pub locals: Seq<(Seq<u8>, Var)>,
    pub stack_ix: i64,
}

impl View for Context {
    type V = CtxV;

    open spec fn view(&self) -> CtxV {
        CtxV { ident: self.ident@, locals: self.locals.view_entries(), stack_ix: self.stack_ix }
    }
}

/// The scope outside any loop, with no variables.
pub open spec fn top_ctx() -> CtxV {
    CtxV {
        ident: TokV {
            kind: TokKind::Blank,
            val: Seq::<u8>::empty(),
            pos: PosV { row: u32::MAX, col: u32::MAX, file: "NULL"@ },
        },
        locals: Seq::<(Seq<u8>, Var)>::empty(),
        stack_ix: 0,
    }
}

/// Copies the variables of a table into a new one.
fn copy_locals(m: &NameMap<Var>) -> (r: NameMap<Var>)
    ensures
        r.view_entries() == m.view_entries(),
{
    let mut entries: Vec<(Vec<u8>, Var)> = Vec::new();
    let mut i: usize = 0;
    while i < m.entries.len()
        invariant
            0 <= i <= m.entries@.len(),
            entries@.len() == i,
            forall|k: int| 0 <= k < i ==> (#[trigger] entries@[k]).0@ == m.entries@[k].0@ && entries@[k].1 == m.entries@[k].1,
        decreases m.entries@.len() - i,
    {
        let k = m.entries[i].0.clone();
        entries.push((k, m.entries[i].1));
        i = i + 1;
    }
    let r = NameMap { entries };
    assert(r.view_entries() =~= m.view_entries());
    r
}

impl Context {
    /// The scope outside any loop, with no variables.
    pub fn new() -> (r: Self)
        ensures
            r@ == top_ctx(),
    {
        Context { ident: Tok::null(), locals: NameMap::new(), stack_ix: 0 }
    }

    /// A scope nested in another, in the same loop.
    pub fn from(ctx: &Context) -> (r: Self)
        ensures
            r@ == ctx@,
    {
        Context { ident: ctx.ident.clone(), locals: copy_locals(&ctx.locals), stack_ix: ctx.stack_ix }
    }

    /// The scope of the body of a loop, nested in another.
    pub fn under(ident: &Tok, ctx: &Context) -> (r: Self)
        ensures
            r@ == (CtxV { ident: ident@, ..ctx@ }),
    {
        Context { ident: ident.clone(), locals: copy_locals(&ctx.locals), stack_ix: ctx.stack_ix }
    }
}

impl Default for Context {
    fn default() -> (r: Self)
        ensures
            r@ == top_ctx(),
    {
        Self::new()
    }
}

} // verus!
