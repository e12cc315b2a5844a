// Each test compiles a small program of the language through the whole
// pipeline (lexer, parser, type checker, code generation, optimiser,
// assembly) and runs the instructions on a small x86-64 model, comparing
// what the program writes to standard output.

use std::collections::HashMap;

use lib::asmgen::assembly;
use lib::error::CompileError;
use lib::irgen::IR;
use lib::lex::Lexer;
use lib::optimise::Optimiser;
use lib::parse::AST;
use lib::represent::{Instr, InstrKind, Operand, Register};
use lib::types::Analyser;

const PRELUDE: &str = "
void print(chr^ s, i64 n) {
    syscall(1, 1, s, n);
}

void newline() {
    syscall(1, 1, \"\\n\", 1);
}

void print_digit(i64 d) {
    chr^ digits = \"0123456789\";
    syscall(1, 1, digits + d, 1);
}

void print_int(i64 n) {
    if n < 0 {
        syscall(1, 1, \"-\", 1);
        n = 0 - n;
    }
    if n >= 10 {
        print_int(n / 10);
    }
    print_digit(n % 10);
}

void println_int(i64 n) {
    print_int(n);
    newline();
}

void exit() {
    syscall(60, 0);
}
";

fn front(src: &str) -> Result<AST, CompileError> {
    let mut text = String::from(PRELUDE);
    text.push_str(src);
    text.push('\n');
    let mut lexer = Lexer::new(text.into_bytes(), "test.zod");
    lexer.tokenize()?;
    lexer.lex()?;
    let mut ast = AST::new();
    ast.construct(&mut lexer)?;
    let mut analyser = Analyser::new();
    analyser.typecheck_ast(&mut ast)?;
    Ok(ast)
}

fn reg_ix(r: Register) -> usize {
    match r {
        Register::RAX => 0,
        Register::RCX => 1,
        Register::RDX => 2,
        Register::RBX => 3,
        Register::RSP => 4,
        Register::RBP => 5,
        Register::RSI => 6,
        Register::RDI => 7,
        Register::R8 => 8,
        Register::R9 => 9,
        Register::R10 => 10,
        Register::R11 => 11,
        Register::R12 => 12,
        Register::R13 => 13,
        Register::R14 => 14,
        Register::R15 => 15,
    }
}

fn mask(size: i64) -> u64 {
    match size {
        1 => 0xff,
        2 => 0xffff,
        4 => 0xffff_ffff,
        8 => u64::MAX,
        _ => panic!("register of width {}", size),
    }
}

fn sext(v: u64, size: i64) -> i64 {
    match size {
        1 => v as u8 as i8 as i64,
        2 => v as u16 as i16 as i64,
        4 => v as u32 as i32 as i64,
        _ => v as i64,
    }
}

struct Machine {
    regs: [u64; 16],
    mem: HashMap<u64, u8>,
    out: Vec<u8>,
    next_map: u64,
    brk: u64,
}

impl Machine {
    fn get(&self, r: Register, size: i64) -> u64 {
        self.regs[reg_ix(r)] & mask(size)
    }

    fn set(&mut self, r: Register, size: i64, v: u64) {
        let i = reg_ix(r);
        self.regs[i] = match size {
            8 => v,
            4 => v & 0xffff_ffff,
            _ => (self.regs[i] & !mask(size)) | (v & mask(size)),
        };
    }

    fn load(&self, addr: u64, size: i64) -> u64 {
        let mut v: u64 = 0;
        for k in (0..size as u64).rev() {
            v = (v << 8) | *self.mem.get(&addr.wrapping_add(k)).unwrap_or(&0) as u64;
        }
        v
    }

    fn store(&mut self, addr: u64, size: i64, v: u64) {
        for k in 0..size as u64 {
            self.mem.insert(addr.wrapping_add(k), (v >> (8 * k)) as u8);
        }
    }

    fn push(&mut self, v: u64) {
        let sp = self.regs[4].wrapping_sub(8);
        self.regs[4] = sp;
        self.store(sp, 8, v);
    }

    fn pop(&mut self) -> u64 {
        let sp = self.regs[4];
        let v = self.load(sp, 8);
        self.regs[4] = sp.wrapping_add(8);
        v
    }
}

fn label_name(o: &Operand) -> Vec<u8> {
    match o {
        Operand::Name { name } => name.name.clone(),
        _ => panic!("not a label"),
    }
}

/// The scope of a local label: the last global label placed before it.
fn label_key(scope: &[u8], name: &[u8]) -> Vec<u8> {
    if name.first() == Some(&b'.') {
        let mut k = scope.to_vec();
        k.extend_from_slice(name);
        k
    } else {
        name.to_vec()
    }
}

fn run(instrs: &[Instr]) -> Vec<u8> {
    let mut strs: HashMap<i64, u64> = HashMap::new();
    let mut m = Machine { regs: [0; 16], mem: HashMap::new(), out: Vec::new(), next_map: 0x4000_0000, brk: 0x2000_0000 };
    let mut labels: HashMap<Vec<u8>, usize> = HashMap::new();
    let mut scopes: Vec<Vec<u8>> = Vec::new();
    let mut scope: Vec<u8> = Vec::new();
    let mut data: u64 = 0x1000_0000;
    for (i, ins) in instrs.iter().enumerate() {
        if ins.kind == InstrKind::Label {
            let n = label_name(&ins.opera);
            if n.first() != Some(&b'.') {
                scope = n.clone();
            }
            labels.insert(label_key(&scope, &n), i);
        }
        if ins.kind == InstrKind::DeclStr {
            if let (Operand::LiteralInt { value }, Operand::Bytes { bytes }) = (&ins.opera, &ins.operb) {
                strs.insert(*value, data);
                for (k, b) in bytes.iter().enumerate() {
                    m.mem.insert(data + k as u64, *b);
                }
                data += bytes.len() as u64 + 16;
            }
        }
        scopes.push(scope.clone());
    }
    let target = |i: usize, o: &Operand| -> usize {
        let key = label_key(&scopes[i], &label_name(o));
        *labels.get(&key).unwrap_or_else(|| panic!("no label {}", String::from_utf8_lossy(&key)))
    };
    let val = |m: &Machine, o: &Operand| -> u64 {
        match o {
            Operand::Register { name, size } => m.get(*name, *size),
            Operand::LiteralInt { value } => *value as u64,
            Operand::LiteralStr { value } => strs[value],
            _ => panic!("no value"),
        }
    };
    let size_of = |o: &Operand| -> i64 {
        match o {
            Operand::Register { size, .. } => *size,
            _ => 8,
        }
    };
    m.regs[4] = 0x7fff_0000_0000;
    m.push(0);
    let mut pc = labels[&b"func_main".to_vec()];
    let mut steps = 0u64;
    loop {
        steps += 1;
        assert!(steps < 20_000_000, "program did not stop");
        assert!(pc < instrs.len(), "ran off the end of the code");
        let ins = &instrs[pc];
        let (a, b) = (&ins.opera, &ins.operb);
        pc += 1;
        match ins.kind {
            InstrKind::Culled | InstrKind::Comment | InstrKind::DataSegment | InstrKind::DeclStr | InstrKind::Label => {},
            InstrKind::Push => {
                let v = val(&m, a);
                if let Operand::LiteralInt { .. } = a {
                    m.regs[0] = v;
                }
                m.push(v);
            },
            InstrKind::Pop => {
                let v = m.pop();
                if let Operand::Register { name, size } = a {
                    m.set(*name, *size, v);
                }
            },
            InstrKind::CopyToRegA => {
                let v = val(&m, b);
                if let Operand::Register { name, size } = a {
                    m.set(*name, *size, v);
                }
            },
            InstrKind::CopyVarToReg => {
                if let (Operand::Register { name, size }, Operand::StackOffset { value, .. }) = (a, b) {
                    let addr = m.regs[5].wrapping_add(*value as u64);
                    let v = m.load(addr, *size);
                    m.set(*name, *size, v);
                }
            },
            InstrKind::CopyRegToVar => {
                if let (Operand::StackOffset { value, size }, Operand::Register { name, .. }) = (a, b) {
                    let addr = m.regs[5].wrapping_add(*value as u64);
                    let v = m.get(*name, *size);
                    m.store(addr, *size, v);
                }
            },
            InstrKind::CopyRegAToAdrAtRegB => {
                let s = size_of(a);
                let addr = val(&m, b);
                let v = val(&m, a);
                m.store(addr, s, v);
            },
            InstrKind::DerefReg => {
                if let Operand::Register { name, size } = a {
                    let addr = m.get(*name, 8);
                    let v = m.load(addr, *size);
                    m.set(*name, *size, v);
                }
            },
            InstrKind::Add | InstrKind::Sub | InstrKind::Mul | InstrKind::BOr | InstrKind::BAnd => {
                if let Operand::Register { name, size } = a {
                    let x = m.get(*name, *size);
                    let y = val(&m, b);
                    let r = match ins.kind {
                        InstrKind::Add => x.wrapping_add(y),
                        InstrKind::Sub => x.wrapping_sub(y),
                        InstrKind::Mul => (sext(x, *size).wrapping_mul(sext(y, *size))) as u64,
                        InstrKind::BOr => x | y,
                        _ => x & y,
                    };
                    m.set(*name, *size, r);
                }
            },
            InstrKind::DivAByBManglingD => {
                m.regs[2] = 0;
                if let Operand::Register { name, size } = a {
                    let v = m.get(*name, *size);
                    m.set(Register::RAX, 8, v);
                }
                let s = size_of(b);
                assert_eq!(s, 8, "division only at full width");
                let dividend = m.regs[0] as i128;
                let divisor = sext(val(&m, b), s) as i128;
                assert!(divisor != 0, "division by zero");
                let q = dividend / divisor;
                let r = dividend % divisor;
                assert!(q >= i64::MIN as i128 && q <= i64::MAX as i128, "division overflow");
                m.regs[0] = q as i64 as u64;
                m.regs[2] = r as i64 as u64;
            },
            InstrKind::NegReg => {
                if let Operand::Register { name, size } = a {
                    let x = m.get(*name, *size);
                    m.set(*name, *size, x.wrapping_neg());
                }
            },
            InstrKind::RegBLtA | InstrKind::RegBLeA | InstrKind::RegBGtA | InstrKind::RegBGeA | InstrKind::RegBEqA
            | InstrKind::RegBNeA | InstrKind::RegBNeIntLitA => {
                let (dst, other) = if ins.kind == InstrKind::RegBNeIntLitA { (b, a) } else { (a, b) };
                if let Operand::Register { name, size } = dst {
                    let x = sext(m.get(*name, *size), *size);
                    let y = sext(val(&m, other), *size);
                    let flag = match ins.kind {
                        InstrKind::RegBLtA => x < y,
                        InstrKind::RegBLeA => x <= y,
                        InstrKind::RegBGtA => x > y,
                        InstrKind::RegBGeA => x >= y,
                        InstrKind::RegBEqA => x == y,
                        _ => x != y,
                    };
                    m.set(*name, *size, 0);
                    m.set(*name, 1, flag as u64);
                }
            },
            InstrKind::JZero => {
                if val(&m, a) == 0 {
                    pc = target(pc - 1, b);
                }
            },
            InstrKind::JLabel => {
                pc = target(pc - 1, a);
            },
            InstrKind::Call => {
                m.push(pc as u64);
                pc = target(pc - 1, a);
            },
            InstrKind::Return => {
                pc = m.pop() as usize;
            },
            InstrKind::SubFromReg => {
                if let (Operand::LiteralInt { value }, Operand::Register { name, size }) = (a, b) {
                    let x = m.get(*name, *size);
                    m.set(*name, *size, x.wrapping_sub(*value as u64));
                }
            },
            InstrKind::DeallocateStack => {
                if let Operand::LiteralInt { value } = a {
                    m.regs[4] = m.regs[4].wrapping_add(*value as u64);
                }
            },
            InstrKind::Shl | InstrKind::Shr => panic!("shifts are not generated"),
            InstrKind::Syscall => match m.regs[0] {
                1 => {
                    let (buf, len) = (m.regs[6], m.regs[2]);
                    for k in 0..len {
                        let byte = *m.mem.get(&(buf + k)).unwrap_or(&0);
                        m.out.push(byte);
                    }
                    m.regs[0] = len;
                },
                9 => {
                    let len = m.regs[6];
                    m.regs[0] = m.next_map;
                    m.next_map += (len + 4095) / 4096 * 4096 + 4096;
                },
                12 => {
                    if m.regs[7] != 0 {
                        m.brk = m.regs[7];
                    }
                    m.regs[0] = m.brk;
                },
                60 => return m.out,
                n => panic!("system call {}", n),
            },
        }
    }
}

/// Compiles a program and runs it, with and without the optimiser; both
/// must write the same, and the assembly must be there.
fn output_of(src: &str) -> String {
    let ast = front(src).unwrap_or_else(|e| panic!("compile error {:?}", e));
    let mut ir = IR::new(&ast);
    ir.generate().unwrap_or_else(|e| panic!("code generation error {:?}", e));
    let plain = run(&ir.instrs);
    let text = assembly(&ir).expect("assembly");
    assert!(text.starts_with(b"global _start\n"));
    let before = ir.instrs.len();
    assert!(Optimiser::new().optimise(&mut ir));
    assert!(ir.instrs.len() <= before);
    assert!(ir.instrs.iter().all(|i| i.kind != InstrKind::Culled));
    let optimised = run(&ir.instrs);
    assert_eq!(plain, optimised, "the optimiser changed what the program writes");
    assert!(assembly(&ir).is_some());
    String::from_utf8(plain).expect("text")
}

#[test]
fn test_arithmetic() {
    let src = "
void main() {
    println_int(2 + 3 * 4);
    println_int((2 + 3) * 4);
    println_int(20 / 3);
    println_int(20 % 3);
    println_int(10 - 15);
    println_int(-7);
    println_int(100 - 2 * 3 - 4);
    println_int(7 == 7);
    println_int(7 != 7);
    println_int(3 < 4);
    println_int(3 >= 4);
    println_int(1 && 0);
    println_int(0 || 5);
    exit();
}
";
    assert_eq!(output_of(src), "14\n20\n6\n2\n-5\n-7\n90\n1\n0\n1\n0\n0\n5\n");
}

#[test]
fn test_conditional() {
    let src = "
void check(i64 x) {
    if x > 10 {
        print(\"big\", 3);
    } else {
        if x == 10 {
            print(\"ten\", 3);
        } else {
            print(\"small\", 5);
        }
    }
    newline();
}

void main() {
    check(3);
    check(10);
    check(42);
    if 1 {
        print(\"always\", 6);
        newline();
    }
    if 0 {
        print(\"never\", 5);
    }
    exit();
}
";
    assert_eq!(output_of(src), "small\nten\nbig\nalways\n");
}

#[test]
fn test_variable() {
    let src = "
void main() {
    i64 a = 5;
    i64 b;
    b = a * 2;
    println_int(a);
    println_int(b);
    a = a + b;
    println_int(a);
    exit();
}
";
    assert_eq!(output_of(src), "5\n10\n15\n");
}

#[test]
fn test_function() {
    let src = "
i64 square(i64 x) {
    return x * x;
}

i64 fact(i64 n) {
    if n <= 1 {
        return 1;
    }
    return n * fact(n - 1);
}

i64 sum3(i64 a, i64 b, i64 c) {
    return a * 100 + b * 10 + c;
}

void main() {
    println_int(square(9));
    println_int(fact(10));
    println_int(sum3(1, 2, 3));
    exit();
}
";
    assert_eq!(output_of(src), "81\n3628800\n123\n");
}

#[test]
fn test_redeclare() {
    let src = "
void main() {
    if 1 {
        i64 x = 1;
        println_int(x);
    }
    if 1 {
        i64 x = 2;
        println_int(x);
    }
    for i64 i = 0; i < 2; i = i + 1 {
        i64 y = i * 10;
        println_int(y);
    }
    for i64 i = 5; i < 6; i = i + 1 {
        println_int(i);
    }
    exit();
}
";
    assert_eq!(output_of(src), "1\n2\n0\n10\n5\n");
}

#[test]
fn test_loop() {
    let src = "
void main() {
    i64 sum = 0;
    for i64 i = 1; i <= 10; i = i + 1 {
        sum = sum + i;
    }
    println_int(sum);
    i64 n = 0;
    while n < 5 {
        n = n + 1;
        if n == 3 {
            continue;
        }
        print_int(n);
    }
    newline();
    exit();
}
";
    assert_eq!(output_of(src), "55\n1245\n");
}

#[test]
fn test_comment() {
    let src = "
// A program with comments.
void main() {
    // This line is a comment.
    i64 x = 4; // So is the rest of this one.
    // println_int(999);
    println_int(x);
    exit();
}
";
    assert_eq!(output_of(src), "4\n");
}

#[test]
fn test_scope_break() {
    let src = "
void main() {
    i64 keep = 7;
    i64 i = 0;
    while 1 {
        if i * 2 > 6 {
            break;
        }
        i = i + 1;
    }
    println_int(i);
    for i64 j = 0; j < 100; j = j + 1 {
        i64 t = j;
        if t == 3 {
            break;
        }
        print_int(t);
    }
    newline();
    println_int(keep);
    for i64 j = 0; j < 3; j = j + 1 {
        i64 u = j + 1;
        if u == 2 {
            continue;
        }
        print_int(u);
    }
    newline();
    println_int(keep);
    exit();
}
";
    assert_eq!(output_of(src), "4\n012\n7\n13\n7\n");
}

#[test]
fn test_nest() {
    let src = "
void main() {
    for i64 i = 1; i <= 3; i = i + 1 {
        for i64 j = 1; j <= 3; j = j + 1 {
            if j <= i {
                print_int(i * j);
            } else {
                print(\".\", 1);
            }
        }
        newline();
    }
    exit();
}
";
    assert_eq!(output_of(src), "1..\n24.\n369\n");
}

#[test]
fn test_memory() {
    let src = "
void main() {
    i64^ p = syscall(9, 0, 64, 3, 34, 0, -1);
    @p = 41;
    @(p + 8) = 1;
    i64 a = @p;
    i64^ q = p + 8;
    i64 b = @q;
    println_int(a + b);
    exit();
}
";
    assert_eq!(output_of(src), "42\n");
}

#[test]
fn test_index() {
    let src = "
void main() {
    i64^ xs = syscall(9, 0, 80, 3, 34, 0, -1);
    for i64 i = 0; i < 10; i = i + 1 {
        xs[i] = i * i;
    }
    i64 total = 0;
    for i64 i = 0; i < 10; i = i + 1 {
        total = total + xs[i];
    }
    println_int(total);
    println_int(xs[7]);
    exit();
}
";
    assert_eq!(output_of(src), "285\n49\n");
}

#[test]
fn test_string() {
    let src = "
i64 strlen(chr^ s) {
    i64 n = 0;
    while @(s + n) != 0 {
        n = n + 1;
    }
    return n;
}

void main() {
    chr^ s = \"hello, world\";
    print(s, strlen(s));
    newline();
    println_int(strlen(s));
    print(\"two\\nlines\\n\", 10);
    exit();
}
";
    assert_eq!(output_of(src), "hello, world\n12\ntwo\nlines\n");
}

#[test]
fn test_rule110() {
    let src = "
void main() {
    i64 n = 16;
    i64^ cells = syscall(9, 0, 256, 3, 34, 0, -1);
    i64^ next = syscall(9, 0, 256, 3, 34, 0, -1);
    cells[n - 1] = 1;
    for i64 gen = 0; gen < 8; gen = gen + 1 {
        for i64 i = 0; i < n; i = i + 1 {
            if cells[i] == 1 {
                print(\"*\", 1);
            } else {
                print(\" \", 1);
            }
        }
        newline();
        for i64 i = 0; i < n; i = i + 1 {
            i64 l = 0;
            if i > 0 {
                l = cells[i - 1];
            }
            i64 r = 0;
            if i < n - 1 {
                r = cells[i + 1];
            }
            i64 pat = l * 4 + cells[i] * 2 + r;
            i64 v = 0;
            if pat == 1 || pat == 2 {
                v = 1;
            }
            if pat == 3 || pat == 5 {
                v = 1;
            }
            if pat == 6 {
                v = 1;
            }
            next[i] = v;
        }
        for i64 i = 0; i < n; i = i + 1 {
            cells[i] = next[i];
        }
    }
    exit();
}
";
    let expected = "               *\n              **\n             ***\n            ** *\n           *****\n          **   *\n         ***  **\n        ** * ***\n";
    assert_eq!(output_of(src), expected);
}
