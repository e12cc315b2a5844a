use vstd::prelude::*;

use crate::irgen::IR;
use crate::represent::{instrs_view, size_of_bytes, valid_size, Instr, InstrKind, InstrV, LabelV, Operand, OperandV, Register, RegisterSize};
use crate::text::{decode_utf8, push_signed_decimal, signed_decimal, utf8_text};
use vstd::string::StringSliceAdditionalSpecFns;

verus! {

/// The bytes of a piece of text.
pub open spec fn txt(s: &str) -> Seq<u8> {
    s.spec_bytes()
}

/// The upper-case hexadecimal digit of a number below 16.
pub open spec fn hex_digit(d: u8) -> u8 {
    if d < 10 {
        (48 + d) as u8
    } else {
        (55 + d) as u8
    }
}

/// A byte as `0x` and two upper-case hexadecimal digits.
pub open spec fn hex_byte(b: u8) -> Seq<u8> {
    seq![48u8, 120u8, hex_digit(b / 16), hex_digit(b % 16)]
}

/// Bytes as hexadecimal, separated by commas.
pub open spec fn hex_list(bs: Seq<u8>) -> Seq<u8>
    decreases bs.len(),
{
    if bs.len() == 0 {
        seq![]
    } else if bs.len() == 1 {
        hex_byte(bs[0])
    } else {
        hex_list(bs.drop_last()) + seq![44u8] + hex_byte(bs.last())
    }
}

/// How an operand is written in assembly; `None` for a register of a width
/// that registers do not have, or a label whose name is no valid UTF-8.
pub open spec fn operand_text(o: OperandV) -> Option<Seq<u8>> {
    match o {
        OperandV::Blank => Some(txt("None")),
        OperandV::Register { name, size } => if valid_size(size) {
            Some(txt(name.name(size_of_bytes(size))))
        } else {
            None
        },
        OperandV::StackOffset { value, size: _ } => Some(
            (if value < 0 {
                Seq::<u8>::empty()
            } else {
                txt("+")
            }) + signed_decimal(value as int),
        ),
        OperandV::LiteralInt { value } => Some(signed_decimal(value as int)),
        OperandV::LiteralStr { value } => Some(txt("str_") + signed_decimal(value as int)),
        OperandV::Name { name } => if utf8_text(name.name) is Some {
            Some(name.name)
        } else {
            None
        },
        OperandV::Bytes { bytes } => Some(hex_list(bytes)),
        OperandV::Comment { comment } => Some(vstd::utf8::encode_utf8(comment)),
    }
}

/// How the lowest byte of a register operand is written; `None` for other
/// operands.
pub open spec fn byte_text(o: OperandV) -> Option<Seq<u8>> {
    match o {
        OperandV::Register { name, size: _ } => Some(txt(name.name(RegisterSize::Byte))),
        _ => None,
    }
}

/// Text, an operand, text.
pub open spec fn fmt1(p: &str, a: Option<Seq<u8>>, q: &str) -> Option<Seq<u8>> {
    match a {
        Some(x) => Some(txt(p) + x + txt(q)),
        None => None,
    }
}

/// Text, an operand, text, an operand, text.
pub open spec fn fmt2(p: &str, a: Option<Seq<u8>>, m: &str, b: Option<Seq<u8>>, q: &str) -> Option<Seq<u8>> {
    match (a, b) {
        (Some(x), Some(y)) => Some(txt(p) + x + txt(m) + y + txt(q)),
        _ => None,
    }
}

/// Two pieces of text, one after the other.
pub open spec fn cat(a: Option<Seq<u8>>, b: Option<Seq<u8>>) -> Option<Seq<u8>> {
    match (a, b) {
        (Some(x), Some(y)) => Some(x + y),
        _ => None,
    }
}

/// Whether an operand is the integer `n`.
pub open spec fn is_n(o: OperandV, n: i64) -> bool {
    o matches OperandV::LiteralInt { value } && value == n
}

/// A comparison whose result lands in A: compare, clear A, set its lowest
/// byte by the condition.
pub open spec fn set_cmp(set: &str, a: OperandV, b: OperandV) -> Option<Seq<u8>> {
    cat(
        fmt2("    cmp ", operand_text(a), ", ", operand_text(b), "\n"),
        cat(fmt1("    mov ", operand_text(a), ", 0\n"), fmt1(set, byte_text(a), "\n")),
    )
}

/// How an instruction is written in assembly.
pub open spec fn instr_text(i: InstrV) -> Option<Seq<u8>> {
    let a = operand_text(i.opera);
    let b = operand_text(i.operb);
    match i.kind {
        InstrKind::Culled => Some(seq![]),
        InstrKind::DataSegment => Some(txt("segment .data\n")),
        InstrKind::DeclStr => fmt2("str_", a, ": db ", b, "\n"),
        InstrKind::CopyVarToReg => fmt2("    mov ", a, ", [rbp ", b, "]\n"),
        InstrKind::Push => if i.opera is LiteralInt {
            cat(fmt1("    mov rax, ", a, "\n"), Some(txt("    push rax\n")))
        } else {
            fmt1("    push ", a, "\n")
        },
        InstrKind::Pop => fmt1("    pop ", a, "\n"),
        InstrKind::Shl => if !is_n(i.operb, 0) {
            cat(fmt1("    mov cl, ", byte_text(i.operb), "\n"), fmt1("    shl ", a, ", cl\n"))
        } else {
            Some(seq![])
        },
        InstrKind::Shr => if !is_n(i.operb, 0) {
            cat(fmt1("    mov cl, ", byte_text(i.operb), "\n"), fmt1("    shr ", a, ", cl\n"))
        } else {
            Some(seq![])
        },
        InstrKind::BOr => fmt2("    or ", a, ", ", b, "\n"),
        InstrKind::BAnd => fmt2("    and ", a, ", ", b, "\n"),
        InstrKind::Add => if !is_n(i.operb, 0) {
            fmt2("    add ", a, ", ", b, "\n")
        } else {
            Some(seq![])
        },
        InstrKind::Mul => if !is_n(i.operb, 1) {
            fmt2("    imul ", a, ", ", b, "\n")
        } else {
            Some(seq![])
        },
        InstrKind::DivAByBManglingD => {
            let load = if i.opera matches OperandV::Register { name, .. } && name != Register::RAX {
                fmt1("    mov rax, ", a, "\n")
            } else {
                Some(seq![])
            };
            cat(Some(txt("    xor rdx, rdx\n")), cat(load, fmt1("    idiv ", b, "\n")))
        },
        InstrKind::Sub => if !is_n(i.operb, 0) {
            fmt2("    sub ", a, ", ", b, "\n")
        } else {
            Some(seq![])
        },
        InstrKind::CopyToRegA => fmt2("    mov ", a, ", ", b, "\n"),
        InstrKind::CopyRegToVar => fmt2("    mov [rbp ", a, "], ", b, "\n"),
        InstrKind::Label => fmt1("", a, ":\n"),
        InstrKind::Return => Some(txt("    ret\n")),
        InstrKind::JZero => cat(fmt1("    cmp ", a, ", 0\n"), fmt1("    je ", b, "\n")),
        InstrKind::RegBLtA => set_cmp("    setl ", i.opera, i.operb),
        InstrKind::RegBLeA => set_cmp("    setle ", i.opera, i.operb),
        InstrKind::RegBGtA => set_cmp("    setg ", i.opera, i.operb),
        InstrKind::RegBGeA => set_cmp("    setge ", i.opera, i.operb),
        InstrKind::SubFromReg => fmt2("    sub ", b, ", ", a, "\n"),
        InstrKind::RegBEqA => set_cmp("    sete ", i.opera, i.operb),
        InstrKind::RegBNeA => set_cmp("    setne ", i.opera, i.operb),
        InstrKind::RegBNeIntLitA => set_cmp("    setne ", i.operb, i.opera),
        InstrKind::DeallocateStack => fmt1("    add rsp, ", a, "\n"),
        InstrKind::JLabel => fmt1("    jmp ", a, "\n"),
        InstrKind::Syscall => Some(txt("    syscall\n")),
        InstrKind::Call => fmt1("    call ", a, "\n"),
        InstrKind::NegReg => fmt1("    neg ", a, "\n"),
        InstrKind::DerefReg => fmt2("    mov ", a, ", [", a, "]\n"),
        InstrKind::CopyRegAToAdrAtRegB => fmt2("    mov [", b, "], ", a, "\n"),
        InstrKind::Comment => fmt1("; ", a, "\n"),
    }
}

/// The lines that start every program: the entry point calls `main`.
pub open spec fn header() -> Seq<u8> {
    txt("global _start\n") + txt("section .text\n") + txt("; --- Entrypoint ---\n") + txt("_start:\n") + txt(
        "    call func_main\n",
    )
}

/// The text of the instructions from the `i`-th on.
pub open spec fn instrs_text(s: Seq<InstrV>, i: int) -> Option<Seq<u8>>
    decreases s.len() - i,
{
    if i < 0 || i >= s.len() {
        Some(seq![])
    } else {
        cat(instr_text(s[i]), instrs_text(s, i + 1))
    }
}

/// The assembly of a program: the header, then each instruction.
pub open spec fn asm_text(s: Seq<InstrV>) -> Option<Seq<u8>> {
    cat(Some(header()), instrs_text(s, 0))
}

/// Whether an instruction compares two registers and sets the first to
/// the truth of the comparison.
pub open spec fn is_comparison(k: InstrKind) -> bool {
    k == InstrKind::RegBLtA || k == InstrKind::RegBLeA || k == InstrKind::RegBGtA || k == InstrKind::RegBGeA
        || k == InstrKind::RegBEqA || k == InstrKind::RegBNeA
}

/// The text that compares two registers and clears the first, before the
/// condition is set.
pub open spec fn compare_and_clear(ra: Register, sa: i64, rb: Register, sb: i64) -> Seq<u8> {
    txt("    cmp ") + txt(ra.name(size_of_bytes(sa))) + txt(", ") + txt(rb.name(size_of_bytes(sb))) + txt("\n") + txt(
        "    mov ",
    ) + txt(ra.name(size_of_bytes(sa))) + txt(", 0\n")
}

/// A comparison of two registers compares them, clears the first, and sets
/// its lowest byte by the condition the comparison names: `setl` for less,
/// `setle` for less or equal, `setg` for strictly greater, `setge` for
/// greater or equal, `sete` for equal and `setne` for not equal.
#[verifier::spinoff_prover]
#[verifier::rlimit(50)]
pub proof fn law_comparisons_set_their_condition(ra: Register, sa: i64, rb: Register, sb: i64)
    requires
        valid_size(sa),
        valid_size(sb),
    ensures
        ({
            let a = OperandV::Register { name: ra, size: sa };
            let b = OperandV::Register { name: rb, size: sb };
            let pre = compare_and_clear(ra, sa, rb, sb);
            let low = txt(ra.name(RegisterSize::Byte)) + txt("\n");
            &&& instr_text(InstrV { kind: InstrKind::RegBLtA, opera: a, operb: b }) == Some(pre + txt("    setl ") + low)
            &&& instr_text(InstrV { kind: InstrKind::RegBLeA, opera: a, operb: b }) == Some(pre + txt("    setle ") + low)
            &&& instr_text(InstrV { kind: InstrKind::RegBGtA, opera: a, operb: b }) == Some(pre + txt("    setg ") + low)
            &&& instr_text(InstrV { kind: InstrKind::RegBGeA, opera: a, operb: b }) == Some(pre + txt("    setge ") + low)
            &&& instr_text(InstrV { kind: InstrKind::RegBEqA, opera: a, operb: b }) == Some(pre + txt("    sete ") + low)
            &&& instr_text(InstrV { kind: InstrKind::RegBNeA, opera: a, operb: b }) == Some(pre + txt("    setne ") + low)
        }),
{
    let a = OperandV::Register { name: ra, size: sa };
    let b = OperandV::Register { name: rb, size: sb };
    lemma_comparison_text(InstrKind::RegBLtA, ra, sa, rb, sb);
    lemma_comparison_text(InstrKind::RegBLeA, ra, sa, rb, sb);
    lemma_comparison_text(InstrKind::RegBGtA, ra, sa, rb, sb);
    lemma_comparison_text(InstrKind::RegBGeA, ra, sa, rb, sb);
    lemma_comparison_text(InstrKind::RegBEqA, ra, sa, rb, sb);
    lemma_comparison_text(InstrKind::RegBNeA, ra, sa, rb, sb);
}

/// Arithmetic on two registers writes the x86 instruction of its
/// operation, the destination first: `add`, `sub` and `imul`; division
/// clears RDX, moves the dividend into RAX where it is elsewhere, and
/// divides by the second register with `idiv`.
pub proof fn law_arithmetic_texts(ra: Register, sa: i64, rb: Register, sb: i64)
    requires
        valid_size(sa),
        valid_size(sb),
    ensures
        ({
            let a = OperandV::Register { name: ra, size: sa };
            let b = OperandV::Register { name: rb, size: sb };
            let at = txt(ra.name(size_of_bytes(sa)));
            let bt = txt(rb.name(size_of_bytes(sb)));
            &&& instr_text(InstrV { kind: InstrKind::Add, opera: a, operb: b }) == Some(
                txt("    add ") + at + txt(", ") + bt + txt("\n"),
            )
            &&& instr_text(InstrV { kind: InstrKind::Sub, opera: a, operb: b }) == Some(
                txt("    sub ") + at + txt(", ") + bt + txt("\n"),
            )
            &&& instr_text(InstrV { kind: InstrKind::Mul, opera: a, operb: b }) == Some(
                txt("    imul ") + at + txt(", ") + bt + txt("\n"),
            )
            &&& instr_text(InstrV { kind: InstrKind::DivAByBManglingD, opera: a, operb: b }) == Some(
                txt("    xor rdx, rdx\n") + (if ra != Register::RAX {
                    txt("    mov rax, ") + at + txt("\n")
                } else {
                    Seq::<u8>::empty()
                }) + (txt("    idiv ") + bt + txt("\n")),
            )
        }),
{
    let a = OperandV::Register { name: ra, size: sa };
    let b = OperandV::Register { name: rb, size: sb };
    let at = txt(ra.name(size_of_bytes(sa)));
    let bt = txt(rb.name(size_of_bytes(sb)));
    assert(instr_text(InstrV { kind: InstrKind::Add, opera: a, operb: b }).unwrap() =~= txt("    add ") + at + txt(", ")
        + bt + txt("\n"));
    assert(instr_text(InstrV { kind: InstrKind::Sub, opera: a, operb: b }).unwrap() =~= txt("    sub ") + at + txt(", ")
        + bt + txt("\n"));
    assert(instr_text(InstrV { kind: InstrKind::Mul, opera: a, operb: b }).unwrap() =~= txt("    imul ") + at + txt(", ")
        + bt + txt("\n"));
    if ra != Register::RAX {
        assert(instr_text(InstrV { kind: InstrKind::DivAByBManglingD, opera: a, operb: b }).unwrap() =~= txt(
            "    xor rdx, rdx\n",
        ) + (txt("    mov rax, ") + at + txt("\n")) + (txt("    idiv ") + bt + txt("\n")));
    } else {
        assert(instr_text(InstrV { kind: InstrKind::DivAByBManglingD, opera: a, operb: b }).unwrap() =~= txt(
            "    xor rdx, rdx\n",
        ) + Seq::<u8>::empty() + (txt("    idiv ") + bt + txt("\n")));
    }
}

/// A conditional jump compares its register with 0 and jumps to its label
/// with `je` when they are equal; a plain jump goes to its label with `jmp`.
pub proof fn law_jump_texts(ra: Register, sa: i64, l: LabelV)
    requires
        valid_size(sa),
        utf8_text(l.name) is Some,
    ensures
        instr_text(InstrV { kind: InstrKind::JZero, opera: OperandV::Register { name: ra, size: sa }, operb: OperandV::Name { name: l } })
            == Some(txt("    cmp ") + txt(ra.name(size_of_bytes(sa))) + txt(", 0\n") + (txt("    je ") + l.name + txt("\n"))),
        instr_text(InstrV { kind: InstrKind::JLabel, opera: OperandV::Name { name: l }, operb: OperandV::Blank }) == Some(
            txt("    jmp ") + l.name + txt("\n"),
        ),
{
}

/// No two of the six comparisons of the same registers write the same
/// text: each sets its register by a condition of its own.
pub proof fn law_comparisons_differ(k1: InstrKind, k2: InstrKind, ra: Register, sa: i64, rb: Register, sb: i64)
    requires
        is_comparison(k1),
        is_comparison(k2),
        k1 != k2,
        valid_size(sa),
        valid_size(sb),
    ensures
        instr_text(InstrV { kind: k1, opera: OperandV::Register { name: ra, size: sa }, operb: OperandV::Register { name: rb, size: sb } })
            != instr_text(InstrV { kind: k2, opera: OperandV::Register { name: ra, size: sa }, operb: OperandV::Register { name: rb, size: sb } }),
{
    let pre = compare_and_clear(ra, sa, rb, sb);
    let low = txt(ra.name(RegisterSize::Byte)) + txt("\n");
    reveal_strlit("\n");
    lemma_comparison_text(k1, ra, sa, rb, sb);
    lemma_comparison_text(k2, ra, sa, rb, sb);
    lemma_condition_letters(k1, pre, low);
    lemma_condition_letters(k2, pre, low);
    let t1 = pre + condition_set(k1) + low;
    let t2 = pre + condition_set(k2) + low;
    assert(condition_letters(k1) != condition_letters(k2));
    assert(t1[pre.len() as int + 7] != t2[pre.len() as int + 7] || t1[pre.len() as int + 8] != t2[pre.len() as int + 8]);
    assert(t1 != t2);
}

/// The instruction that sets a register by a comparison's condition.
pub open spec fn condition_set(k: InstrKind) -> Seq<u8> {
    if k == InstrKind::RegBLtA {
        txt("    setl ")
    } else if k == InstrKind::RegBLeA {
        txt("    setle ")
    } else if k == InstrKind::RegBGtA {
        txt("    setg ")
    } else if k == InstrKind::RegBGeA {
        txt("    setge ")
    } else if k == InstrKind::RegBEqA {
        txt("    sete ")
    } else {
        txt("    setne ")
    }
}

proof fn lemma_comparison_text(k: InstrKind, ra: Register, sa: i64, rb: Register, sb: i64)
    requires
        is_comparison(k),
        valid_size(sa),
        valid_size(sb),
    ensures
        instr_text(InstrV { kind: k, opera: OperandV::Register { name: ra, size: sa }, operb: OperandV::Register { name: rb, size: sb } })
            == Some(compare_and_clear(ra, sa, rb, sb) + condition_set(k) + (txt(ra.name(RegisterSize::Byte)) + txt("\n"))),
{
    if k == InstrKind::RegBLtA {
        lemma_set_cmp_regs("    setl ", ra, sa, rb, sb);
    } else if k == InstrKind::RegBLeA {
        lemma_set_cmp_regs("    setle ", ra, sa, rb, sb);
    } else if k == InstrKind::RegBGtA {
        lemma_set_cmp_regs("    setg ", ra, sa, rb, sb);
    } else if k == InstrKind::RegBGeA {
        lemma_set_cmp_regs("    setge ", ra, sa, rb, sb);
    } else if k == InstrKind::RegBEqA {
        lemma_set_cmp_regs("    sete ", ra, sa, rb, sb);
    } else {
        lemma_set_cmp_regs("    setne ", ra, sa, rb, sb);
    }
}

proof fn lemma_set_cmp_regs(set: &str, ra: Register, sa: i64, rb: Register, sb: i64)
    requires
        valid_size(sa),
        valid_size(sb),
    ensures
        set_cmp(set, OperandV::Register { name: ra, size: sa }, OperandV::Register { name: rb, size: sb }) == Some(
            compare_and_clear(ra, sa, rb, sb) + txt(set) + (txt(ra.name(RegisterSize::Byte)) + txt("\n")),
        ),
{
    let a = OperandV::Register { name: ra, size: sa };
    let b = OperandV::Register { name: rb, size: sb };
    let x = set_cmp(set, a, b).unwrap();
    assert(x =~= compare_and_clear(ra, sa, rb, sb) + txt(set) + (txt(ra.name(RegisterSize::Byte)) + txt("\n")));
}

/// The two bytes of a comparison's text that tell its condition apart:
/// the last letter of `setl`, `setg`, `sete` or `setn..`, and what follows it.
pub open spec fn condition_letters(k: InstrKind) -> (u8, u8) {
    match k {
        InstrKind::RegBLtA => (108u8, 32u8),
        InstrKind::RegBLeA => (108u8, 101u8),
        InstrKind::RegBGtA => (103u8, 32u8),
        InstrKind::RegBGeA => (103u8, 101u8),
        InstrKind::RegBEqA => (101u8, 32u8),
        _ => (110u8, 101u8),
    }
}

proof fn lemma_condition_letters(k: InstrKind, pre: Seq<u8>, low: Seq<u8>)
    requires
        is_comparison(k),
        low.len() > 0,
    ensures
        ({
            let t = pre + condition_set(k) + low;
            t[pre.len() as int + 7] == condition_letters(k).0 && t[pre.len() as int + 8] == condition_letters(k).1
        }),
{
    broadcast use vstd::string::is_ascii_spec_bytes;

    reveal_strlit("    setl ");
    reveal_strlit("    setle ");
    reveal_strlit("    setg ");
    reveal_strlit("    setge ");
    reveal_strlit("    sete ");
    reveal_strlit("    setne ");
    assert(vstd::string::is_ascii("    setl "));
    assert(vstd::string::is_ascii("    setle "));
    assert(vstd::string::is_ascii("    setg "));
    assert(vstd::string::is_ascii("    setge "));
    assert(vstd::string::is_ascii("    sete "));
    assert(vstd::string::is_ascii("    setne "));
    let n = pre.len() as int;
    assert(txt("    setl ")[7] == 108u8 && txt("    setl ")[8] == 32u8);
    assert(txt("    setle ")[7] == 108u8 && txt("    setle ")[8] == 101u8);
    assert(txt("    setg ")[7] == 103u8 && txt("    setg ")[8] == 32u8);
    assert(txt("    setge ")[7] == 103u8 && txt("    setge ")[8] == 101u8);
    assert(txt("    sete ")[7] == 101u8 && txt("    sete ")[8] == 32u8);
    assert(txt("    setne ")[7] == 110u8 && txt("    setne ")[8] == 101u8);
}

/// Every assembly starts with the entry point, which calls `main`.
pub proof fn law_assembly_starts_with_entry(s: Seq<InstrV>)
    ensures
        asm_text(s) matches Some(t) ==> t.len() >= header().len() && t.subrange(0, header().len() as int)
            == header(),
{
    if let Some(rest) = instrs_text(s, 0) {
        assert((header() + rest).subrange(0, header().len() as int) =~= header());
    }
}

/// The text of instructions with one more at the end.
proof fn lemma_text_push(s: Seq<InstrV>, x: InstrV, i: int)
    requires
        0 <= i <= s.len(),
    ensures
        instrs_text(s.push(x), i) == cat(instrs_text(s, i), instr_text(x)),
    decreases s.len() - i,
{
    if i < s.len() {
        lemma_text_push(s, x, i + 1);
        assert(s.push(x)[i] == s[i]);
        match (instr_text(s[i]), instrs_text(s, i + 1), instr_text(x)) {
            (Some(a), Some(b), Some(c)) => {
                assert(a + (b + c) =~= (a + b) + c);
            },
            _ => {},
        }
    } else {
        assert(instrs_text(s.push(x), i + 1) == Some(Seq::<u8>::empty()));
        match instr_text(x) {
            Some(c) => {
                assert(c + Seq::<u8>::empty() =~= c);
                assert(Seq::<u8>::empty() + c =~= c);
            },
            None => {},
        }
    }
}

/// Culled instructions write nothing: taking them out of a program leaves
/// its assembly as it was.
pub proof fn law_culled_write_nothing(s: Seq<InstrV>)
    ensures
        asm_text(crate::optimise::live(s)) == asm_text(s),
    decreases s.len(),
{
    lemma_live_text(s);
}

proof fn lemma_live_text(s: Seq<InstrV>)
    ensures
        instrs_text(crate::optimise::live(s), 0) == instrs_text(s, 0),
    decreases s.len(),
{
    if s.len() > 0 {
        let init = s.drop_last();
        lemma_live_text(init);
        crate::optimise::lemma_live_len(init);
        lemma_text_push(init, s.last(), 0);
        assert(init.push(s.last()) =~= s);
        if s.last().kind != InstrKind::Culled {
            lemma_text_push(crate::optimise::live(init), s.last(), 0);
        } else {
            match instrs_text(init, 0) {
                Some(a) => {
                    assert(a + Seq::<u8>::empty() =~= a);
                },
                None => {},
            }
        }
    }
}

/// Appends the bytes of a piece of text.
fn push_str(out: &mut Vec<u8>, s: &str)
    ensures
        final(out)@ == old(out)@ + txt(s),
{
    out.extend_from_slice(s.as_bytes());
    assert(final(out)@ =~= old(out)@ + txt(s));
}

/// Appends a byte as `0x` and two hexadecimal digits.
fn push_hex_byte(out: &mut Vec<u8>, b: u8)
    ensures
        final(out)@ == old(out)@ + hex_byte(b),
{
    let hi: u8 = b / 16;
    let lo: u8 = b % 16;
    out.push(48u8);
    out.push(120u8);
    out.push(if hi < 10 { 48 + hi } else { 55 + hi });
    out.push(if lo < 10 { 48 + lo } else { 55 + lo });
    assert(final(out)@ =~= old(out)@ + hex_byte(b));
}

/// Appends bytes as hexadecimal, separated by commas.
fn push_hex_list(out: &mut Vec<u8>, bs: &Vec<u8>)
    ensures
        final(out)@ == old(out)@ + hex_list(bs@),
{
    let ghost start = out@;
    let mut i: usize = 0;
    while i < bs.len()
        invariant
            0 <= i <= bs@.len(),
            out@ == start + hex_list(bs@.take(i as int)),
        decreases bs@.len() - i,
    {
        assert(bs@.take(i as int + 1).drop_last() =~= bs@.take(i as int));
        if i > 0 {
            out.push(44u8);
        }
        push_hex_byte(out, bs[i]);
        proof {
            if i == 0 {
                assert(hex_list(bs@.take(1)) == hex_byte(bs@[0]));
                assert(out@ =~= start + hex_list(bs@.take(1)));
            } else {
                assert(out@ =~= start + hex_list(bs@.take(i as int + 1)));
            }
        }
        i = i + 1;
    }
    assert(bs@.take(bs@.len() as int) =~= bs@);
}

/// Whether an operand is the integer `n`.
pub fn operand_is_n(o: &Operand, n: i64) -> (r: bool)
    ensures
        r == is_n(o@, n),
{
    match o {
        Operand::LiteralInt { value } => *value == n,
        _ => false,
    }
}

/// Appends how an operand is written; `false` where it cannot be.
fn push_operand(out: &mut Vec<u8>, o: &Operand) -> (r: bool)
    ensures
        match operand_text(o@) {
            Some(t) => r && final(out)@ == old(out)@ + t,
            None => !r,
        },
{
    match o {
        Operand::Blank => {
            push_str(out, "None");
            true
        },
        Operand::Register { name, size } => {
            if *size == 1 || *size == 2 || *size == 4 || *size == 8 {
                push_str(out, name.size(*size));
                true
            } else {
                false
            }
        },
        Operand::StackOffset { value, size: _ } => {
            let ghost start = out@;
            if *value >= 0 {
                push_str(out, "+");
            }
            push_signed_decimal(out, *value);
            assert(out@ =~= start + ((if *value < 0 {
                Seq::<u8>::empty()
            } else {
                txt("+")
            }) + signed_decimal(*value as int)));
            true
        },
        Operand::LiteralInt { value } => {
            push_signed_decimal(out, *value);
            true
        },
        Operand::LiteralStr { value } => {
            push_str(out, "str_");
            push_signed_decimal(out, *value);
            assert(out@ =~= old(out)@ + (txt("str_") + signed_decimal(*value as int)));
            true
        },
        Operand::Name { name } => {
            match decode_utf8(&name.name) {
                Some(_) => {
                    out.extend_from_slice(name.name.as_slice());
                    assert(out@ =~= old(out)@ + name.name@);
                    true
                },
                None => false,
            }
        },
        Operand::Bytes { bytes } => {
            push_hex_list(out, bytes);
            true
        },
        Operand::Comment { comment } => {
            push_str(out, comment.as_str());
            true
        },
    }
}

impl Operand {
    /// How the operand is written; `None` for a register of a width that
    /// registers do not have, or a label whose name is no valid UTF-8.
    pub fn display(&self) -> (r: Option<Vec<u8>>)
        ensures
            match operand_text(self@) {
                Some(t) => r is Some && r.unwrap()@ == t,
                None => r is None,
            },
    {
        let mut out: Vec<u8> = Vec::new();
        if push_operand(&mut out, self) {
            assert(out@ =~= Seq::<u8>::empty() + operand_text(self@).unwrap());
            Some(out)
        } else {
            None
        }
    }
}

/// Appends how the lowest byte of a register operand is written; `false`
/// for other operands.
fn push_byte(out: &mut Vec<u8>, o: &Operand) -> (r: bool)
    ensures
        match byte_text(o@) {
            Some(t) => r && final(out)@ == old(out)@ + t,
            None => !r,
        },
{
    match o {
        Operand::Register { name, size: _ } => {
            push_str(out, name.size(1));
            true
        },
        _ => false,
    }
}

/// Appends text, an operand, text; `false` where the operand cannot be
/// written.
fn push_fmt1(out: &mut Vec<u8>, p: &str, a: &Operand, q: &str) -> (r: bool)
    ensures
        match fmt1(p, operand_text(a@), q) {
            Some(t) => r && final(out)@ == old(out)@ + t,
            None => !r,
        },
{
    push_str(out, p);
    if !push_operand(out, a) {
        return false;
    }
    push_str(out, q);
    assert(out@ =~= old(out)@ + fmt1(p, operand_text(a@), q).unwrap());
    true
}

/// Appends text, an operand, text, an operand, text; `false` where an
/// operand cannot be written.
fn push_fmt2(out: &mut Vec<u8>, p: &str, a: &Operand, m: &str, b: &Operand, q: &str) -> (r: bool)
    ensures
        match fmt2(p, operand_text(a@), m, operand_text(b@), q) {
            Some(t) => r && final(out)@ == old(out)@ + t,
            None => !r,
        },
{
    push_str(out, p);
    if !push_operand(out, a) {
        return false;
    }
    push_str(out, m);
    if !push_operand(out, b) {
        return false;
    }
    push_str(out, q);
    assert(out@ =~= old(out)@ + fmt2(p, operand_text(a@), m, operand_text(b@), q).unwrap());
    true
}

/// Appends a comparison whose result lands in `a`.
fn push_set_cmp(out: &mut Vec<u8>, set: &str, a: &Operand, b: &Operand) -> (r: bool)
    ensures
        match set_cmp(set, a@, b@) {
            Some(t) => r && final(out)@ == old(out)@ + t,
            None => !r,
        },
{
    if !push_fmt2(out, "    cmp ", a, ", ", b, "\n") {
        return false;
    }
    let ghost mid = out@;
    if !push_fmt1(out, "    mov ", a, ", 0\n") {
        return false;
    }
    let ghost mid2 = out@;
    push_str(out, set);
    if !push_byte(out, a) {
        return false;
    }
    push_str(out, "\n");
    assert(out@ =~= old(out)@ + set_cmp(set, a@, b@).unwrap());
    true
}

/// Appends how an instruction is written; `false` where it cannot be.
fn push_instr(out: &mut Vec<u8>, i: &Instr) -> (r: bool)
    ensures
        match instr_text(i@) {
            Some(t) => r && final(out)@ == old(out)@ + t,
            None => !r,
        },
{
    let a = &i.opera;
    let b = &i.operb;
    match i.kind {
        InstrKind::Culled => {
            assert(out@ =~= old(out)@ + seq![]);
            true
        },
        InstrKind::DataSegment => {
            push_str(out, "segment .data\n");
            true
        },
        InstrKind::DeclStr => push_fmt2(out, "str_", a, ": db ", b, "\n"),
        InstrKind::CopyVarToReg => push_fmt2(out, "    mov ", a, ", [rbp ", b, "]\n"),
        InstrKind::Push => {
            if let Operand::LiteralInt { value: _ } = a {
                if !push_fmt1(out, "    mov rax, ", a, "\n") {
                    return false;
                }
                let ghost mid = out@;
                push_str(out, "    push rax\n");
                assert(out@ =~= old(out)@ + instr_text(i@).unwrap());
                true
            } else {
                push_fmt1(out, "    push ", a, "\n")
            }
        },
        InstrKind::Pop => push_fmt1(out, "    pop ", a, "\n"),
        InstrKind::Shl | InstrKind::Shr => {
            if !operand_is_n(b, 0) {
                push_str(out, "    mov cl, ");
                if !push_byte(out, b) {
                    return false;
                }
                push_str(out, "\n");
                let ghost mid = out@;
                let ok = if i.kind == InstrKind::Shl {
                    push_fmt1(out, "    shl ", a, ", cl\n")
                } else {
                    push_fmt1(out, "    shr ", a, ", cl\n")
                };
                if !ok {
                    return false;
                }
                assert(out@ =~= old(out)@ + instr_text(i@).unwrap());
                true
            } else {
                assert(out@ =~= old(out)@ + seq![]);
                true
            }
        },
        InstrKind::BOr => push_fmt2(out, "    or ", a, ", ", b, "\n"),
        InstrKind::BAnd => push_fmt2(out, "    and ", a, ", ", b, "\n"),
        InstrKind::Add => {
            if !operand_is_n(b, 0) {
                push_fmt2(out, "    add ", a, ", ", b, "\n")
            } else {
                assert(out@ =~= old(out)@ + seq![]);
                true
            }
        },
        InstrKind::Mul => {
            if !operand_is_n(b, 1) {
                push_fmt2(out, "    imul ", a, ", ", b, "\n")
            } else {
                assert(out@ =~= old(out)@ + seq![]);
                true
            }
        },
        InstrKind::DivAByBManglingD => {
            push_str(out, "    xor rdx, rdx\n");
            let ghost mid = out@;
            let load: bool = match a {
                Operand::Register { name, size: _ } => *name != Register::RAX,
                _ => false,
            };
            if load {
                if !push_fmt1(out, "    mov rax, ", a, "\n") {
                    return false;
                }
            }
            let ghost mid2 = out@;
            if !push_fmt1(out, "    idiv ", b, "\n") {
                return false;
            }
            assert(out@ =~= old(out)@ + instr_text(i@).unwrap());
            true
        },
        InstrKind::Sub => {
            if !operand_is_n(b, 0) {
                push_fmt2(out, "    sub ", a, ", ", b, "\n")
            } else {
                assert(out@ =~= old(out)@ + seq![]);
                true
            }
        },
        InstrKind::CopyToRegA => push_fmt2(out, "    mov ", a, ", ", b, "\n"),
        InstrKind::CopyRegToVar => push_fmt2(out, "    mov [rbp ", a, "], ", b, "\n"),
        InstrKind::Label => push_fmt1(out, "", a, ":\n"),
        InstrKind::Return => {
            push_str(out, "    ret\n");
            true
        },
        InstrKind::JZero => {
            if !push_fmt1(out, "    cmp ", a, ", 0\n") {
                return false;
            }
            let ghost mid = out@;
            if !push_fmt1(out, "    je ", b, "\n") {
                return false;
            }
            assert(out@ =~= old(out)@ + instr_text(i@).unwrap());
            true
        },
        InstrKind::RegBLtA => push_set_cmp(out, "    setl ", a, b),
        InstrKind::RegBLeA => push_set_cmp(out, "    setle ", a, b),
        InstrKind::RegBGtA => push_set_cmp(out, "    setg ", a, b),
        InstrKind::RegBGeA => push_set_cmp(out, "    setge ", a, b),
        InstrKind::SubFromReg => push_fmt2(out, "    sub ", b, ", ", a, "\n"),
        InstrKind::RegBEqA => push_set_cmp(out, "    sete ", a, b),
        InstrKind::RegBNeA => push_set_cmp(out, "    setne ", a, b),
        InstrKind::RegBNeIntLitA => push_set_cmp(out, "    setne ", b, a),
        InstrKind::DeallocateStack => push_fmt1(out, "    add rsp, ", a, "\n"),
        InstrKind::JLabel => push_fmt1(out, "    jmp ", a, "\n"),
        InstrKind::Syscall => {
            push_str(out, "    syscall\n");
            true
        },
        InstrKind::Call => push_fmt1(out, "    call ", a, "\n"),
        InstrKind::NegReg => push_fmt1(out, "    neg ", a, "\n"),
        InstrKind::DerefReg => push_fmt2(out, "    mov ", a, ", [", a, "]\n"),
        InstrKind::CopyRegAToAdrAtRegB => push_fmt2(out, "    mov [", b, "], ", a, "\n"),
        InstrKind::Comment => push_fmt1(out, "; ", a, "\n"),
    }
}

/// The assembly of a program for nasm on x86-64 Linux: an entry point that
/// calls `main`, then each instruction. `None` where an operand cannot be
/// written: a register of a width that registers do not have, a label
/// whose name is no valid UTF-8, or a byte of something that is no register.
pub fn assembly(ir: &IR) -> (r: Option<Vec<u8>>)
    ensures
        match asm_text(instrs_view(ir.instrs@)) {
            Some(t) => r is Some && r.unwrap()@ == t,
            None => r is None,
        },
{
    let ghost s = instrs_view(ir.instrs@);
    let mut out: Vec<u8> = Vec::new();
    push_str(&mut out, "global _start\n");
    push_str(&mut out, "section .text\n");
    push_str(&mut out, "; --- Entrypoint ---\n");
    push_str(&mut out, "_start:\n");
    push_str(&mut out, "    call func_main\n");
    assert(out@ =~= header());
    let mut i: usize = 0;
    while i < ir.instrs.len()
        invariant
            s == instrs_view(ir.instrs@),
            0 <= i <= s.len(),
            asm_text(s) == cat(Some(out@), instrs_text(s, i as int)),
        decreases s.len() - i,
    {
        let ghost before = out@;
        assert(s[i as int] == ir.instrs@[i as int]@);
        if !push_instr(&mut out, &ir.instrs[i]) {
            return None;
        }
        assert(cat(Some(before), instrs_text(s, i as int)) == cat(Some(out@), instrs_text(s, i as int + 1))) by {
            match instrs_text(s, i as int + 1) {
                Some(rest) => {
                    assert(before + (instr_text(s[i as int]).unwrap() + rest) =~= out@ + rest);
                },
                None => {},
            }
        }
        i = i + 1;
    }
    assert(asm_text(s) == Some(out@)) by {
        assert(out@ + seq![] =~= out@);
    }
    Some(out)
}

} // verus!
