use vstd::prelude::*;

use crate::error::{res_view, CompileError, ErrV, ErrorKind};
use crate::text::{all_ascii, ascii_chars, bytes_eq, decimal, decode_utf8, push_decimal, utf8_text};

verus! {

/// The kinds of token of the language.
#[derive(Debug, PartialEq, Eq, Structural, Hash, Clone, Copy)]
pub enum TokKind {
    Blank,
    Plus,
    Minus,
    Mul,
    Div,
    Assign,
    Mod,
    Equal,
    NotEqual,
    GT,
    LT,
    GE,
    LE,
    LogOr,
    LogAnd,
    Deref,
    Subscript,
    Return,
    If,
    Else,
    For,
    Break,
    Continue,
    While,
    Include,
    TypeVoid,
    TypeInt64,
    TypeInt64Ptr,
    TypeChr,
    TypeChrPtr,
    TypeAnyPtr,
    Int,
    String,
    Char,
    Syscall,
    End,
    Separator,
    OParen,
    CParen,
    OSquare,
    CSquare,
    OScope,
    CScope,
    Ident,
}

impl TokKind {
    /// The text that stands for a kind in messages.
    pub open spec fn text(self) -> &'static str {
        match self {
            TokKind::Blank => "",
            TokKind::Plus => "+",
            TokKind::Minus => "-",
            TokKind::Mul => "*",
            TokKind::Div => "/",
            TokKind::Assign => "=",
            TokKind::Mod => "%",
            TokKind::Equal => "==",
            TokKind::NotEqual => "!=",
            TokKind::GT => ">",
            TokKind::LT => "<",
            TokKind::GE => ">=",
            TokKind::LE => "<=",
            TokKind::LogOr => "||",
            TokKind::LogAnd => "&&",
            TokKind::Deref => "@",
            TokKind::Subscript => "[",
            TokKind::Return => "return",
            TokKind::If => "if",
            TokKind::Else => "else",
            TokKind::For => "for",
            TokKind::Break => "break",
            TokKind::Continue => "continue",
            TokKind::While => "while",
            TokKind::Include => "include",
            TokKind::TypeVoid => "void",
            TokKind::TypeInt64 => "i64",
            TokKind::TypeInt64Ptr => "i64^",
            TokKind::TypeChr => "chr",
            TokKind::TypeChrPtr => "chr^",
            TokKind::TypeAnyPtr => "any^",
            TokKind::Int => "literal int",
            TokKind::String => "literal string",
            TokKind::Char => "literal char",
            TokKind::Syscall => "syscall",
            TokKind::End => ";",
            TokKind::Separator => ",",
            TokKind::OParen => "(",
            TokKind::CParen => ")",
            TokKind::OSquare => "[",
            TokKind::CSquare => "]",
            TokKind::OScope => "{",
            TokKind::CScope => "}",
            TokKind::Ident => "identifier",
        }
    }

    pub fn val_str(&self) -> (r: &'static str)
        ensures
            r == self.text(),
    {
        match self {
            TokKind::Blank => "",
            TokKind::Plus => "+",
            TokKind::Minus => "-",
            TokKind::Mul => "*",
            TokKind::Div => "/",
            TokKind::Assign => "=",
            TokKind::Mod => "%",
            TokKind::Equal => "==",
            TokKind::NotEqual => "!=",
            TokKind::GT => ">",
            TokKind::LT => "<",
            TokKind::GE => ">=",
            TokKind::LE => "<=",
            TokKind::LogOr => "||",
            TokKind::LogAnd => "&&",
            TokKind::Deref => "@",
            TokKind::Subscript => "[",
            TokKind::Return => "return",
            TokKind::If => "if",
            TokKind::Else => "else",
            TokKind::For => "for",
            TokKind::Break => "break",
            TokKind::Continue => "continue",
            TokKind::While => "while",
            TokKind::Include => "include",
            TokKind::TypeVoid => "void",
            TokKind::TypeInt64 => "i64",
            TokKind::TypeInt64Ptr => "i64^",
            TokKind::TypeChr => "chr",
            TokKind::TypeChrPtr => "chr^",
            TokKind::TypeAnyPtr => "any^",
            TokKind::Int => "literal int",
            TokKind::String => "literal string",
            TokKind::Char => "literal char",
            TokKind::Syscall => "syscall",
            TokKind::End => ";",
            TokKind::Separator => ",",
            TokKind::OParen => "(",
            TokKind::CParen => ")",
            TokKind::OSquare => "[",
            TokKind::CSquare => "]",
            TokKind::OScope => "{",
            TokKind::CScope => "}",
            TokKind::Ident => "identifier",
        }
    }
}

/// A position in a source file: row and column count from 0.
#[derive(Debug)]
pub struct Pos {
    pub row: u32,
    pub col: u32,
    pub file: String,
}

/// The mathematical value of a `Pos`.
pub struct PosV {
    pub row: u32,
    pub col: u32,
    pub file: Seq<char>,
}

impl View for Pos {
    type V = PosV;

    open spec fn view(&self) -> PosV {
        PosV { row: self.row, col: self.col, file: self.file@ }
    }
}

impl Clone for Pos {
    fn clone(&self) -> (r: Self)
        ensures
            r@ == self@,
    {
        Pos { row: self.row, col: self.col, file: self.file.clone() }
    }
}

impl Pos {
    /// Whether two positions are the same.
    pub fn same(&self, other: &Pos) -> (r: bool)
        ensures
            r == (self@ == other@),
    {
        self.row == other.row && self.col == other.col && self.file == other.file
    }

    /// The row and column as `row_col`, in decimal: the tail of a label.
    pub fn as_vec(&self) -> (r: Vec<u8>)
        ensures
            r@ == decimal(self.row as nat) + seq![95u8] + decimal(self.col as nat),
    {
        let mut res: Vec<u8> = Vec::new();
        push_decimal(&mut res, self.row as u64);
        res.push(95);
        push_decimal(&mut res, self.col as u64);
        assert(res@ =~= decimal(self.row as nat) + seq![95u8] + decimal(self.col as nat));
        res
    }
}

/// A token: its kind, its bytes, and where it starts.
#[derive(Debug)]
pub struct Tok {
    pub kind: TokKind,
    pub val: Vec<u8>,
    pub pos: Pos,
}

/// The mathematical value of a `Tok`.
pub struct TokV {
    pub kind: TokKind,
    pub val: Seq<u8>,
    pub pos: PosV,
}

impl View for Tok {
    type V = TokV;

    open spec fn view(&self) -> TokV {
        TokV { kind: self.kind, val: self.val@, pos: self.pos@ }
    }
}

impl Tok {
    /// The bytes of the token as text, where they are valid UTF-8.
    pub fn val_str(&self) -> (r: Option<String>)
        ensures
            r is Some <==> utf8_text(self.val@) is Some,
            r matches Some(t) ==> utf8_text(self.val@) == Some(t@),
            all_ascii(self.val@) ==> r is Some && r.unwrap()@ == ascii_chars(self.val@),
    {
        decode_utf8(&self.val)
    }

    /// The position as people count it, from 1.
    pub fn pos(&self) -> (r: Pos)
        requires
            self.pos.row < u32::MAX,
            self.pos.col < u32::MAX,
        ensures
            r@ == (PosV { row: (self.pos.row + 1) as u32, col: (self.pos.col + 1) as u32, file: self.pos.file@ }),
    {
        Pos { row: self.pos.row + 1, col: self.pos.col + 1, file: self.pos.file.clone() }
    }

    /// A token that stands for nothing, at no position.
    pub fn null() -> (r: Self)
        ensures
            r@.kind == TokKind::Blank,
            r@.val == Seq::<u8>::empty(),
            r@.pos.row == u32::MAX,
            r@.pos.col == u32::MAX,
            r@.pos.file == "NULL"@,
    {
        Tok {
            kind: TokKind::Blank,
            val: Vec::new(),
            pos: Pos { row: u32::MAX, col: u32::MAX, file: "NULL".to_owned() },
        }
    }

    /// A token that stands for nothing, at a given position.
    pub fn null_at(pos: Pos) -> (r: Self)
        ensures
            r@ == (TokV { kind: TokKind::Blank, val: Seq::<u8>::empty(), pos: pos@ }),
    {
        let v: Vec<u8> = Vec::new();
        assert(v@ =~= Seq::<u8>::empty());
        Tok { kind: TokKind::Blank, val: v, pos: pos.clone() }
    }

    /// Whether two tokens are the same.
    pub fn same(&self, other: &Tok) -> (r: bool)
        ensures
            r == (self@ == other@),
    {
        self.kind == other.kind && bytes_eq(self.val.as_slice(), other.val.as_slice()) && self.pos.same(&other.pos)
    }
}

impl Clone for Tok {
    fn clone(&self) -> (r: Self)
        ensures
            r@ == self@,
    {
        Tok { kind: self.kind, val: self.val.clone(), pos: self.pos.clone() }
    }
}


/// The tokens of a vector, as values.
pub open spec fn toks_view(toks: Seq<Tok>) -> Seq<TokV> {
    toks.map_values(|t: Tok| t@)
}

/// The state of the scanner between two steps: the index and byte under
/// the cursor, the row and column of the cursor, the bytes of the token
/// being gathered, and the tokens gathered so far.
pub struct Scan {
    pub cur: int,
    pub rune: u8,
    pub row: int,
    pub col: int,
    pub lexeme: Seq<u8>,
    pub toks: Seq<TokV>,
}

/// The states that the scanner passes through on a source.
pub open spec fn scan_ok(src: Seq<u8>, s: Scan) -> bool {
    &&& 0 < src.len()
    &&& src.len() + 16 < u32::MAX
    &&& 0 <= s.cur <= src.len() + 8
    &&& 0 <= s.col <= s.cur
    &&& 0 <= s.row <= s.cur
    &&& s.cur < src.len() ==> s.rune == src[s.cur]
    &&& s.cur >= src.len() ==> s.rune == 0
}

/// Moves the cursor one byte on; the flag says whether a byte was left.
/// Moving past a newline starts the next row.
pub open spec fn advance(src: Seq<u8>, s: Scan) -> (Scan, bool) {
    let cur = s.cur + 1;
    if cur >= src.len() {
        (Scan { cur, col: s.col + 1, rune: 0, ..s }, false)
    } else if s.rune == 10 {
        (Scan { cur, row: s.row + 1, col: 0, rune: src[cur], ..s }, true)
    } else {
        (Scan { cur, col: s.col + 1, rune: src[cur], ..s }, true)
    }
}

/// Appends a byte to the token being gathered.
pub open spec fn add_byte(s: Scan, b: u8) -> Scan {
    Scan { lexeme: s.lexeme.push(b), ..s }
}

/// The position on the cursor's row at a given column.
pub open spec fn pos_at(file: Seq<char>, s: Scan, col: int) -> PosV {
    PosV { row: s.row as u32, col: col as u32, file }
}

/// Ends the token being gathered, placing it at a given column.
pub open spec fn emit(file: Seq<char>, s: Scan, col: int) -> Result<Scan, ErrV> {
    if col < 0 {
        Err(ErrV { kind: ErrorKind::PositionUnderflow, pos: pos_at(file, s, s.col), text: s.lexeme })
    } else {
        Ok(
            Scan {
                toks: s.toks.push(TokV { kind: TokKind::Blank, val: s.lexeme, pos: pos_at(file, s, col) }),
                lexeme: seq![],
                ..s
            },
        )
    }
}

/// Ends the token being gathered, if there is one; it ends at the cursor.
pub open spec fn flush(file: Seq<char>, s: Scan) -> Result<Scan, ErrV> {
    if s.lexeme.len() == 0 {
        Ok(s)
    } else {
        emit(file, s, s.col - s.lexeme.len())
    }
}

/// The byte that an escape stands for inside a character literal.
pub open spec fn char_escape(r: u8) -> Option<u8> {
    if r == 92 {
        Some(92u8)
    } else if r == 110 {
        Some(10u8)
    } else if r == 114 {
        Some(13u8)
    } else if r == 34 {
        Some(34u8)
    } else if r == 39 {
        Some(39u8)
    } else if r == 48 {
        Some(0u8)
    } else {
        None
    }
}

/// The byte that an escape stands for inside a string literal.
pub open spec fn string_escape(r: u8) -> Option<u8> {
    if r == 92 {
        Some(92u8)
    } else if r == 110 {
        Some(10u8)
    } else if r == 114 {
        Some(13u8)
    } else if r == 34 {
        Some(34u8)
    } else if r == 39 {
        Some(39u8)
    } else if r == 0 {
        Some(0u8)
    } else {
        None
    }
}

/// The error for a byte after a backslash that is no escape.
pub open spec fn escape_error(file: Seq<char>, s: Scan) -> ErrV {
    ErrV { kind: ErrorKind::InvalidEscape(s.rune), pos: pos_at(file, s, s.col), text: seq![s.rune] }
}

/// Skips the rest of a line comment: moves on until a newline is under
/// the cursor or the source ends.
pub open spec fn skip_line(src: Seq<u8>, s: Scan) -> Scan
    decreases src.len() - s.cur,
{
    let (s1, more) = advance(src, s);
    if more && s1.rune != 10 {
        skip_line(src, s1)
    } else {
        s1
    }
}

/// Gathers the rest of a string literal, up to and with its closing quote.
pub open spec fn string_body(src: Seq<u8>, file: Seq<char>, s: Scan) -> Result<Scan, ErrV>
    decreases src.len() - s.cur,
{
    let (s1, more) = advance(src, s);
    if !more {
        Ok(s1)
    } else if s1.rune == 92 {
        let (s2, _) = advance(src, s1);
        match string_escape(s2.rune) {
            Some(b) => string_body(src, file, add_byte(s2, b)),
            None => Err(escape_error(file, s2)),
        }
    } else if s1.rune == 34 {
        Ok(add_byte(s1, s1.rune))
    } else {
        string_body(src, file, add_byte(s1, s1.rune))
    }
}

/// Bytes that make up words: letters, the bytes between `Z` and `a`, and digits.
pub open spec fn is_word(c: u8) -> bool {
    (65 <= c && c <= 122) || (48 <= c && c <= 57)
}

/// Bytes that stand alone as a token.
pub open spec fn is_punct(c: u8) -> bool {
    c == 64 || c == 59 || c == 43 || c == 42 || c == 40 || c == 41 || c == 123 || c == 125 || c == 91
        || c == 93 || c == 37
}

/// Bytes that start an operator: `>`, `<`, `!`, `-`.
pub open spec fn is_op_start(c: u8) -> bool {
    c == 62 || c == 60 || c == 33 || c == 45
}

/// Bytes that may precede `=` in one operator: `>`, `<`, `=`, `!`.
pub open spec fn joins_eq(c: u8) -> bool {
    c == 62 || c == 60 || c == 61 || c == 33
}

/// Gathers a character literal: the quote, one byte or escape, and one more byte.
pub open spec fn char_literal(src: Seq<u8>, file: Seq<char>, s: Scan) -> Result<Scan, ErrV> {
    let (s2, _) = advance(src, add_byte(s, 39));
    let s4 = if s2.rune == 92 {
        let (s3, _) = advance(src, s2);
        match char_escape(s3.rune) {
            Some(b) => Ok(add_byte(s3, b)),
            None => Err(escape_error(file, s3)),
        }
    } else {
        Ok(add_byte(s2, s2.rune))
    };
    match s4 {
        Err(e) => Err(e),
        Ok(s4) => {
            let (s5, _) = advance(src, s4);
            let s6 = add_byte(s5, s5.rune);
            emit(file, s6, s6.col - s6.lexeme.len())
        },
    }
}

/// A character literal `'\x'` with an escape gives one token: the two
/// quotes around the byte the escape names, `\n` the newline (10), `\r`
/// the carriage return (13), `\\` the backslash (92), `\'` the apostrophe
/// (39), `\"` the double quote (34) and `\0` the zero byte; any other
/// letter after the backslash is an error.
pub proof fn law_char_escapes(src: Seq<u8>, file: Seq<char>, s: Scan, r: u8)
    requires
        0 <= s.cur,
        s.cur + 3 < src.len(),
        s.rune == 39,
        src[s.cur + 1] == 92,
        src[s.cur + 2] == r,
        src[s.cur + 3] == 39,
        s.lexeme == Seq::<u8>::empty(),
    ensures
        char_literal(src, file, s) is Ok ==> r == 110 || r == 114 || r == 92 || r == 39 || r == 34 || r == 48,
        char_literal(src, file, s) matches Ok(s2) ==> {
            let v = s2.toks.last().val;
            &&& s2.toks.len() == s.toks.len() + 1
            &&& s2.toks.drop_last() == s.toks
            &&& (r == 110 ==> v == seq![39u8, 10u8, 39u8])
            &&& (r == 114 ==> v == seq![39u8, 13u8, 39u8])
            &&& (r == 92 ==> v == seq![39u8, 92u8, 39u8])
            &&& (r == 39 ==> v == seq![39u8, 39u8, 39u8])
            &&& (r == 34 ==> v == seq![39u8, 34u8, 39u8])
            &&& (r == 48 ==> v == seq![39u8, 0u8, 39u8])
        },
{
    let (s2, _) = advance(src, add_byte(s, 39));
    let (s3, _) = advance(src, s2);
    assert(s2.rune == 92);
    assert(s3.rune == r);
    if let Some(b) = char_escape(r) {
        let (s5, _) = advance(src, add_byte(s3, b));
        assert(s5.rune == 39);
        let s6 = add_byte(s5, s5.rune);
        assert(s6.lexeme =~= seq![39u8, b, 39u8]);
        if let Ok(s7) = emit(file, s6, s6.col - s6.lexeme.len()) {
            assert(s7.toks.drop_last() =~= s.toks);
        }
    }
}

/// An escape gives the same byte in a character literal as in a string
/// literal, for every letter but `0`, which in a string is spelt with the
/// zero byte itself.
pub proof fn law_escapes_agree(r: u8)
    requires
        r != 48,
        r != 0,
    ensures
        char_escape(r) == string_escape(r),
{
}

/// What the scanner does with the byte under the cursor, before it moves on.
pub open spec fn react(src: Seq<u8>, file: Seq<char>, s: Scan) -> Result<Scan, ErrV> {
    let r = s.rune;
    let nonempty = s.lexeme.len() > 0;
    if r == 32 || r == 10 {
        flush(file, s)
    } else if r == 39 {
        match flush(file, s) {
            Ok(s1) => char_literal(src, file, s1),
            Err(e) => Err(e),
        }
    } else if r == 34 {
        match flush(file, s) {
            Ok(s1) => string_body(src, file, add_byte(s1, r)),
            Err(e) => Err(e),
        }
    } else if is_punct(r) {
        match flush(file, s) {
            Ok(s1) => {
                let s2 = add_byte(s1, r);
                emit(file, s2, s2.col)
            },
            Err(e) => Err(e),
        }
    } else if r == 61 && nonempty && joins_eq(s.lexeme.last()) {
        Ok(add_byte(s, r))
    } else if (r == 38 || r == 124) && nonempty {
        let s1 = if s.lexeme.last() == 38 || s.lexeme.last() == 124 {
            add_byte(s, r)
        } else {
            s
        };
        flush(file, s1)
    } else if (r == 38 || r == 124) && !nonempty {
        Ok(add_byte(s, r))
    } else if is_word(r) && nonempty && is_word(s.lexeme.last()) {
        Ok(add_byte(s, r))
    } else {
        match flush(file, s) {
            Ok(s1) => Ok(add_byte(s1, r)),
            Err(e) => Err(e),
        }
    }
}

/// Whether the byte under the cursor closes a line comment.
pub open spec fn starts_comment(s: Scan) -> bool {
    s.rune == 47 && s.lexeme.len() > 0 && s.lexeme.last() == 47
}

/// One step of the scanner: the next state, and whether scanning goes on.
pub open spec fn step(src: Seq<u8>, file: Seq<char>, s: Scan) -> Result<(Scan, bool), ErrV> {
    if starts_comment(s) {
        let s1 = skip_line(src, Scan { lexeme: seq![], ..s });
        Ok((advance(src, s1).0, true))
    } else {
        match react(src, file, s) {
            Ok(s1) => Ok(advance(src, s1)),
            Err(e) => Err(e),
        }
    }
}

/// Runs the scanner from a state to the end of the source.
pub open spec fn scan_from(src: Seq<u8>, file: Seq<char>, s: Scan) -> Result<Scan, ErrV>
    decreases src.len() + 2 - s.cur,
{
    match step(src, file, s) {
        Err(e) => Err(e),
        Ok((s1, more)) => {
            if more && s.cur < s1.cur <= src.len() + 1 {
                scan_from(src, file, s1)
            } else {
                Ok(s1)
            }
        },
    }
}


/// The lexer: the source, a cursor in it, and the tokens found.
pub struct Lexer {
    pub toks: Vec<Tok>,
    pub pos: Pos,
    pub src: Vec<u8>,
    pub cur: usize,
    pub rune: u8,
}

impl Lexer {
    /// The source bytes.
    pub open spec fn source(&self) -> Seq<u8> {
        self.src@
    }

    /// The scanner state held by the lexer, with the given token being gathered.
    pub open spec fn scan(&self, lexeme: Seq<u8>) -> Scan {
        Scan {
            cur: self.cur as int,
            rune: self.rune,
            row: self.pos.row as int,
            col: self.pos.col as int,
            lexeme,
            toks: toks_view(self.toks@),
        }
    }

    /// A lexer on a source, with its cursor on the first byte.
    pub fn new(src: Vec<u8>, file: &str) -> (r: Self)
        requires
            src.len() > 0,
            src.len() + 16 < u32::MAX,
        ensures
            r.source() == src@,
            r.toks@.len() == 0,
            r.pos@ == (PosV { row: 0, col: 0, file: file@ }),
            r.cur == 0,
            r.rune == src@[0],
    {
        let first: u8 = src[0];
        Lexer {
            toks: Vec::new(),
            pos: Pos { row: 0, col: 0, file: file.to_owned() },
            src,
            cur: 0,
            rune: first,
        }
    }

    /// Puts the cursor back on the first byte.
    pub fn refresh(&mut self)
        requires
            old(self).source().len() > 0,
        ensures
            final(self).cur == 0,
            final(self).rune == old(self).source()[0],
            final(self).source() == old(self).source(),
            final(self).toks@ == old(self).toks@,
            final(self).pos@ == old(self).pos@,
    {
        self.cur = 0;
        self.rune = self.src[0];
    }

    fn advance_char(&mut self, Ghost(lex): Ghost<Seq<u8>>) -> (r: bool)
        requires
            scan_ok(old(self).source(), old(self).scan(lex)),
            old(self).cur < old(self).source().len() + 8,
        ensures
            (final(self).scan(lex), r) == advance(old(self).source(), old(self).scan(lex)),
            final(self).source() == old(self).source(),
            final(self).pos.file@ == old(self).pos.file@,
            final(self).toks@ == old(self).toks@,
            scan_ok(final(self).source(), final(self).scan(lex)),
    {
        self.cur = self.cur + 1;
        self.pos.col = self.pos.col + 1;
        if self.cur >= self.src.len() {
            self.rune = 0;
            false
        } else {
            if self.rune == 10 {
                self.pos.row = self.pos.row + 1;
                self.pos.col = 0;
            }
            self.rune = self.src[self.cur];
            true
        }
    }

    fn emit_at(&mut self, lexeme: &mut Vec<u8>, col: u32, under: bool) -> (r: Result<(), CompileError>)
        requires
            scan_ok(old(self).source(), old(self).scan(old(lexeme)@)),
            under ==> col == 0,
        ensures
            emit(old(self).pos.file@, old(self).scan(old(lexeme)@), if under { -1 } else { col as int })
                == (match r {
                Ok(_) => Ok(final(self).scan(final(lexeme)@)),
                Err(e) => Err(e@),
            }),
            final(self).source() == old(self).source(),
            final(self).pos.file@ == old(self).pos.file@,
            r is Ok ==> scan_ok(final(self).source(), final(self).scan(final(lexeme)@)),
            r is Ok ==> final(self).cur == old(self).cur,
    {
        if under {
            return Err(
                CompileError { kind: ErrorKind::PositionUnderflow, pos: self.pos.clone(), text: lexeme.clone() },
            );
        }
        let tok = Tok {
            kind: TokKind::Blank,
            val: lexeme.clone(),
            pos: Pos { row: self.pos.row, col, file: self.pos.file.clone() },
        };
        self.toks.push(tok);
        lexeme.clear();
        proof {
            assert(toks_view(self.toks@) =~= toks_view(old(self).toks@).push(tok@));
            assert(lexeme@ =~= Seq::<u8>::empty());
        }
        Ok(())
    }

    fn flush(&mut self, lexeme: &mut Vec<u8>) -> (r: Result<(), CompileError>)
        requires
            scan_ok(old(self).source(), old(self).scan(old(lexeme)@)),
        ensures
            flush(old(self).pos.file@, old(self).scan(old(lexeme)@)) == (match r {
                Ok(_) => Ok(final(self).scan(final(lexeme)@)),
                Err(e) => Err(e@),
            }),
            final(self).source() == old(self).source(),
            final(self).pos.file@ == old(self).pos.file@,
            r is Ok ==> scan_ok(final(self).source(), final(self).scan(final(lexeme)@)),
            r is Ok ==> final(self).cur == old(self).cur,
    {
        if lexeme.len() == 0 {
            return Ok(());
        }
        let n: usize = lexeme.len();
        if n > self.pos.col as usize {
            self.emit_at(lexeme, 0, true)
        } else {
            let col: u32 = self.pos.col - (n as u32);
            self.emit_at(lexeme, col, false)
        }
    }

    fn skip_line(&mut self, Ghost(lex): Ghost<Seq<u8>>)
        requires
            scan_ok(old(self).source(), old(self).scan(lex)),
            old(self).cur < old(self).source().len(),
        ensures
            final(self).scan(lex) == skip_line(old(self).source(), old(self).scan(lex)),
            final(self).source() == old(self).source(),
            final(self).pos.file@ == old(self).pos.file@,
            final(self).toks@ == old(self).toks@,
            scan_ok(final(self).source(), final(self).scan(lex)),
            final(self).cur <= final(self).source().len(),
            final(self).cur > old(self).cur,
    {
        let ghost src = self.source();
        let ghost goal = skip_line(src, self.scan(lex));
        loop
            invariant_except_break
                self.cur < self.source().len(),
                skip_line(src, self.scan(lex)) == goal,
            invariant
                scan_ok(self.source(), self.scan(lex)),
                self.source() == src,
                self.pos.file@ == old(self).pos.file@,
                self.toks@ == old(self).toks@,
                self.cur >= old(self).cur,
            ensures
                self.scan(lex) == goal,
                self.cur <= self.source().len(),
                self.cur > old(self).cur,
            decreases self.source().len() - self.cur,
        {
            let ghost before = self.scan(lex);
            let more = self.advance_char(Ghost(lex));
            if !(more && self.rune != 10) {
                assert(skip_line(src, before) == self.scan(lex));
                break;
            }
            assert(skip_line(src, before) == skip_line(src, self.scan(lex)));
        }
    }

    fn string_body(&mut self, lexeme: &mut Vec<u8>) -> (r: Result<(), CompileError>)
        requires
            scan_ok(old(self).source(), old(self).scan(old(lexeme)@)),
            old(self).cur < old(self).source().len(),
        ensures
            string_body(old(self).source(), old(self).pos.file@, old(self).scan(old(lexeme)@)) == (match r {
                Ok(_) => Ok(final(self).scan(final(lexeme)@)),
                Err(e) => Err(e@),
            }),
            final(self).source() == old(self).source(),
            final(self).pos.file@ == old(self).pos.file@,
            r is Ok ==> scan_ok(final(self).source(), final(self).scan(final(lexeme)@)),
            r is Ok ==> final(self).cur <= final(self).source().len() + 1,
            r is Ok ==> final(self).cur > old(self).cur,
    {
        let ghost src = self.source();
        let ghost file = self.pos.file@;
        let ghost goal = string_body(src, file, self.scan(lexeme@));
        loop
            invariant
                scan_ok(self.source(), self.scan(lexeme@)),
                self.cur < self.source().len(),
                string_body(src, file, self.scan(lexeme@)) == goal,
                self.source() == src,
                self.pos.file@ == file,
                src == old(self).source(),
                file == old(self).pos.file@,
                goal == string_body(old(self).source(), old(self).pos.file@, old(self).scan(old(lexeme)@)),
                self.cur >= old(self).cur,
            decreases self.source().len() - self.cur,
        {
            let ghost before = self.scan(lexeme@);
            let more = self.advance_char(Ghost(lexeme@));
            let ghost s1 = self.scan(lexeme@);
            assert(advance(src, before) == (s1, more));
            if !more {
                assert(string_body(src, file, before) == Ok::<Scan, ErrV>(s1));
                return Ok(());
            }
            if self.rune == 92 {
                let _ = self.advance_char(Ghost(lexeme@));
                let ghost s2 = self.scan(lexeme@);
                let b: u8 = if self.rune == 92 {
                    92
                } else if self.rune == 110 {
                    10
                } else if self.rune == 114 {
                    13
                } else if self.rune == 34 {
                    34
                } else if self.rune == 39 {
                    39
                } else if self.rune == 0 {
                    0
                } else {
                    let err = CompileError {
                        kind: ErrorKind::InvalidEscape(self.rune),
                        pos: self.pos.clone(),
                        text: vec![self.rune],
                    };
                    assert(err.text@ =~= seq![s2.rune]);
                    assert(string_body(src, file, before) == Err::<Scan, ErrV>(escape_error(file, s2)));
                    return Err(err);
                };
                assert(string_escape(s2.rune) == Some(b));
                lexeme.push(b);
                assert(add_byte(s2, b) == self.scan(lexeme@));
                assert(string_body(src, file, before) == string_body(src, file, self.scan(lexeme@)));
                if self.cur >= self.src.len() {
                    // only the end of the source is left: the next move ends the literal
                    let ghost s3 = self.scan(lexeme@);
                    let _ = self.advance_char(Ghost(lexeme@));
                    assert(advance(src, s3).0 == self.scan(lexeme@));
                    assert(string_body(src, file, s3) == Ok::<Scan, ErrV>(self.scan(lexeme@)));
                    return Ok(());
                }
            } else {
                let c: u8 = self.rune;
                lexeme.push(c);
                assert(add_byte(s1, c) == self.scan(lexeme@));
                if c == 34 {
                    assert(string_body(src, file, before) == Ok::<Scan, ErrV>(self.scan(lexeme@)));
                    return Ok(());
                }
                assert(string_body(src, file, before) == string_body(src, file, self.scan(lexeme@)));
            }
        }
    }

    fn char_literal(&mut self, lexeme: &mut Vec<u8>) -> (r: Result<(), CompileError>)
        requires
            scan_ok(old(self).source(), old(self).scan(old(lexeme)@)),
            old(self).cur < old(self).source().len(),
        ensures
            char_literal(old(self).source(), old(self).pos.file@, old(self).scan(old(lexeme)@)) == (match r {
                Ok(_) => Ok(final(self).scan(final(lexeme)@)),
                Err(e) => Err(e@),
            }),
            final(self).source() == old(self).source(),
            final(self).pos.file@ == old(self).pos.file@,
            r is Ok ==> scan_ok(final(self).source(), final(self).scan(final(lexeme)@)),
            r is Ok ==> final(self).cur <= old(self).cur + 3,
            r is Ok ==> final(self).cur > old(self).cur,
    {
        let ghost src = self.source();
        let ghost file = self.pos.file@;
        let ghost s0 = self.scan(lexeme@);
        lexeme.push(39);
        assert(self.scan(lexeme@) == add_byte(s0, 39));
        let _ = self.advance_char(Ghost(lexeme@));
        let ghost s2 = self.scan(lexeme@);
        if self.rune == 92 {
            let _ = self.advance_char(Ghost(lexeme@));
            let ghost s3 = self.scan(lexeme@);
            let b: u8 = if self.rune == 92 {
                92
            } else if self.rune == 110 {
                10
            } else if self.rune == 114 {
                13
            } else if self.rune == 34 {
                34
            } else if self.rune == 39 {
                39
            } else if self.rune == 48 {
                0
            } else {
                let err = CompileError {
                    kind: ErrorKind::InvalidEscape(self.rune),
                    pos: self.pos.clone(),
                    text: vec![self.rune],
                };
                assert(err.text@ =~= seq![s3.rune]);
                return Err(err);
            };
            assert(char_escape(s3.rune) == Some(b));
            lexeme.push(b);
            assert(self.scan(lexeme@) == add_byte(s3, b));
        } else {
            let c: u8 = self.rune;
            lexeme.push(c);
            assert(self.scan(lexeme@) == add_byte(s2, c));
        }
        let ghost s4 = self.scan(lexeme@);
        let _ = self.advance_char(Ghost(lexeme@));
        let ghost s5 = self.scan(lexeme@);
        let c: u8 = self.rune;
        lexeme.push(c);
        assert(self.scan(lexeme@) == add_byte(s5, c));
        let n: usize = lexeme.len();
        if n > self.pos.col as usize {
            self.emit_at(lexeme, 0, true)
        } else {
            let col: u32 = self.pos.col - (n as u32);
            self.emit_at(lexeme, col, false)
        }
    }

    fn react(&mut self, lexeme: &mut Vec<u8>) -> (r: Result<(), CompileError>)
        requires
            scan_ok(old(self).source(), old(self).scan(old(lexeme)@)),
            old(self).cur <= old(self).source().len() + 1,
        ensures
            react(old(self).source(), old(self).pos.file@, old(self).scan(old(lexeme)@)) == (match r {
                Ok(_) => Ok(final(self).scan(final(lexeme)@)),
                Err(e) => Err(e@),
            }),
            final(self).source() == old(self).source(),
            final(self).pos.file@ == old(self).pos.file@,
            r is Ok ==> scan_ok(final(self).source(), final(self).scan(final(lexeme)@)),
            r is Ok ==> old(self).cur <= final(self).cur <= old(self).source().len() + 2,
    {
        let ghost src = self.source();
        let ghost file = self.pos.file@;
        let ghost s0 = self.scan(lexeme@);
        let r: u8 = self.rune;
        let nonempty: bool = lexeme.len() > 0;
        if r == 32 || r == 10 {
            self.flush(lexeme)
        } else if r == 39 {
            self.flush(lexeme)?;
            self.char_literal(lexeme)
        } else if r == 34 {
            self.flush(lexeme)?;
            let ghost s1 = self.scan(lexeme@);
            lexeme.push(34);
            assert(self.scan(lexeme@) == add_byte(s1, 34));
            self.string_body(lexeme)
        } else if r == 64 || r == 59 || r == 43 || r == 42 || r == 40 || r == 41 || r == 123 || r == 125
            || r == 91 || r == 93 || r == 37 {
            self.flush(lexeme)?;
            let ghost s1 = self.scan(lexeme@);
            lexeme.push(r);
            assert(self.scan(lexeme@) == add_byte(s1, r));
            let col: u32 = self.pos.col;
            self.emit_at(lexeme, col, false)
        } else if r == 61 && nonempty && {
            let last: u8 = lexeme[lexeme.len() - 1];
            last == 62 || last == 60 || last == 61 || last == 33
        } {
            lexeme.push(r);
            assert(self.scan(lexeme@) == add_byte(s0, r));
            Ok(())
        } else if (r == 38 || r == 124) && nonempty {
            let last: u8 = lexeme[lexeme.len() - 1];
            if last == 38 || last == 124 {
                lexeme.push(r);
                assert(self.scan(lexeme@) == add_byte(s0, r));
            }
            self.flush(lexeme)
        } else if (r == 38 || r == 124) && !nonempty {
            lexeme.push(r);
            assert(self.scan(lexeme@) == add_byte(s0, r));
            Ok(())
        } else if ((65 <= r && r <= 122) || (48 <= r && r <= 57)) && nonempty && {
            let last: u8 = lexeme[lexeme.len() - 1];
            (65 <= last && last <= 122) || (48 <= last && last <= 57)
        } {
            lexeme.push(r);
            assert(self.scan(lexeme@) == add_byte(s0, r));
            Ok(())
        } else {
            self.flush(lexeme)?;
            let ghost s1 = self.scan(lexeme@);
            lexeme.push(r);
            assert(self.scan(lexeme@) == add_byte(s1, r));
            Ok(())
        }
    }

    fn scan_step(&mut self, lexeme: &mut Vec<u8>) -> (r: Result<bool, CompileError>)
        requires
            scan_ok(old(self).source(), old(self).scan(old(lexeme)@)),
            old(self).cur <= old(self).source().len() + 1,
        ensures
            step(old(self).source(), old(self).pos.file@, old(self).scan(old(lexeme)@)) == (match r {
                Ok(more) => Ok((final(self).scan(final(lexeme)@), more)),
                Err(e) => Err(e@),
            }),
            final(self).source() == old(self).source(),
            final(self).pos.file@ == old(self).pos.file@,
            r is Ok ==> scan_ok(final(self).source(), final(self).scan(final(lexeme)@)),
            r matches Ok(true) ==> old(self).cur < final(self).cur <= final(self).source().len() + 1,
    {
        let ghost src = self.source();
        let ghost s0 = self.scan(lexeme@);
        if self.rune == 47 && lexeme.len() > 0 && lexeme[lexeme.len() - 1] == 47 {
            lexeme.clear();
            assert(self.scan(lexeme@) == (Scan { lexeme: seq![], ..s0 }));
            self.skip_line(Ghost(lexeme@));
            let _ = self.advance_char(Ghost(lexeme@));
            return Ok(true);
        }
        self.react(lexeme)?;
        let more = self.advance_char(Ghost(lexeme@));
        Ok(more)
    }

    /// Splits the source into tokens, all of kind `Blank`; `lex` gives
    /// them their kinds. The cursor is left at 0.
    pub fn tokenize(&mut self) -> (r: Result<(), CompileError>)
        requires
            scan_ok(old(self).source(), old(self).scan(seq![])),
            old(self).cur <= old(self).source().len() + 1,
        ensures
            final(self).source() == old(self).source(),
            match scan_from(old(self).source(), old(self).pos.file@, old(self).scan(seq![])) {
                Ok(s) => {
                    &&& r is Ok
                    &&& toks_view(final(self).toks@) == s.toks
                    &&& final(self).pos@ == (PosV { row: s.row as u32, col: s.col as u32, file: old(self).pos.file@ })
                    &&& final(self).cur == 0
                    &&& final(self).rune == s.rune
                },
                Err(e) => r matches Err(x) && x@ == e,
            },
    {
        let ghost src = self.source();
        let ghost file = self.pos.file@;
        let ghost goal = scan_from(src, file, self.scan(seq![]));
        let mut lexeme: Vec<u8> = Vec::new();
        assert(lexeme@ =~= Seq::<u8>::empty());
        loop
            invariant_except_break
                scan_ok(self.source(), self.scan(lexeme@)),
                self.cur <= self.source().len() + 1,
                scan_from(src, file, self.scan(lexeme@)) == goal,
            invariant
                self.source() == src,
                self.pos.file@ == file,
                src == old(self).source(),
                file == old(self).pos.file@,
                goal == scan_from(old(self).source(), old(self).pos.file@, old(self).scan(seq![])),
            ensures
                goal == Ok::<Scan, ErrV>(self.scan(lexeme@)),
            decreases self.source().len() + 2 - self.cur,
        {
            let ghost before = self.scan(lexeme@);
            let more = match self.scan_step(&mut lexeme) {
                Ok(m) => m,
                Err(e) => {
                    assert(scan_from(src, file, before) == Err::<Scan, ErrV>(e@));
                    return Err(e);
                },
            };
            if !more {
                assert(scan_from(src, file, before) == Ok::<Scan, ErrV>(self.scan(lexeme@)));
                break;
            }
            assert(scan_from(src, file, before) == scan_from(src, file, self.scan(lexeme@)));
        }
        let ghost fin = self.scan(lexeme@);
        self.cur = 0;
        assert(toks_view(self.toks@) == fin.toks);
        Ok(())
    }

    /// Whether a token is left beyond the one under the cursor.
    pub fn has_token(&self) -> (r: bool)
        requires
            self.toks@.len() > 0,
        ensures
            r == (self.cur < self.toks@.len() - 1),
    {
        self.cur < self.toks.len() - 1
    }

    /// Takes the token under the cursor and moves the cursor on.
    pub fn consume_token(&mut self) -> (r: Tok)
        requires
            old(self).cur < old(self).toks@.len(),
        ensures
            r@ == old(self).toks@[old(self).cur as int]@,
            final(self).cur == old(self).cur + 1,
            final(self).toks@ == old(self).toks@,
            final(self).pos@ == old(self).pos@,
            final(self).src@ == old(self).src@,
            final(self).rune == old(self).rune,
    {
        let n: usize = self.toks.len();
        let i: usize = self.cur;
        let tok = self.toks[i].clone();
        self.cur = i + 1;
        tok
    }

    /// The token under the cursor.
    pub fn peek_token(&mut self) -> (r: Tok)
        requires
            old(self).cur < old(self).toks@.len(),
        ensures
            r@ == old(self).toks@[old(self).cur as int]@,
            *final(self) == *old(self),
    {
        self.toks[self.cur].clone()
    }

    /// The token after the one under the cursor.
    pub fn peek_next_token(&mut self) -> (r: Tok)
        requires
            old(self).cur + 1 < old(self).toks@.len(),
        ensures
            r@ == old(self).toks@[old(self).cur + 1]@,
            *final(self) == *old(self),
    {
        let n: usize = self.toks.len();
        let i: usize = self.cur + 1;
        self.toks[i].clone()
    }

    /// The error of a token or the end of tokens.
    pub(crate) fn unexpected(&self, kind: ErrorKind) -> (r: CompileError)
        ensures
            r@ == (if self.cur < self.toks@.len() {
                ErrV { kind, pos: self.toks@[self.cur as int].pos@, text: self.toks@[self.cur as int].val@ }
            } else {
                end_error(self.pos@)
            }),
    {
        if self.cur < self.toks.len() {
            CompileError { kind, pos: self.toks[self.cur].pos.clone(), text: self.toks[self.cur].val.clone() }
        } else {
            let v: Vec<u8> = Vec::new();
            assert(v@ =~= Seq::<u8>::empty());
            CompileError { kind: ErrorKind::UnexpectedEnd, pos: self.pos.clone(), text: v }
        }
    }

    /// Takes the token under the cursor, which must name a type.
    pub fn expect_type(&mut self) -> (r: Result<Tok, CompileError>)
        ensures
            res_view(r) == take_type(toks_view(old(self).toks@), old(self).pos@, old(self).cur as int),
            final(self).cur == if old(self).cur < old(self).toks@.len() {
                old(self).cur + 1
            } else {
                old(self).cur as int
            },
            final(self).toks@ == old(self).toks@,
            final(self).pos@ == old(self).pos@,
            final(self).src@ == old(self).src@,
            final(self).rune == old(self).rune,
    {
        if self.cur >= self.toks.len() {
            return Err(self.unexpected(ErrorKind::UnexpectedEnd));
        }
        let err = self.unexpected(ErrorKind::ExpectedType);
        let tok = self.consume_token();
        match tok.kind {
            TokKind::TypeVoid | TokKind::TypeInt64 | TokKind::TypeInt64Ptr | TokKind::TypeChr
            | TokKind::TypeChrPtr | TokKind::TypeAnyPtr => Ok(tok),
            _ => Err(err),
        }
    }

    /// Takes the token under the cursor, which must be of the given kind.
    pub fn expect_token(&mut self, kind: TokKind) -> (r: Result<Tok, CompileError>)
        ensures
            res_view(r) == take_kind(toks_view(old(self).toks@), old(self).pos@, old(self).cur as int, kind),
            final(self).cur == if old(self).cur < old(self).toks@.len() {
                old(self).cur + 1
            } else {
                old(self).cur as int
            },
            final(self).toks@ == old(self).toks@,
            final(self).pos@ == old(self).pos@,
            final(self).src@ == old(self).src@,
            final(self).rune == old(self).rune,
    {
        if self.cur >= self.toks.len() {
            return Err(self.unexpected(ErrorKind::UnexpectedEnd));
        }
        let err = self.unexpected(ErrorKind::ExpectedToken(kind));
        let tok = self.consume_token();
        if tok.kind == kind {
            Ok(tok)
        } else {
            Err(err)
        }
    }

    /// Takes the token under the cursor, which must be of one of the given
    /// kinds.
    pub fn expect_tokens(&mut self, kinds: &Vec<TokKind>) -> (r: Result<Tok, CompileError>)
        ensures
            res_view(r) == take_one_of(toks_view(old(self).toks@), old(self).pos@, old(self).cur as int, kinds@),
            final(self).cur == if old(self).cur < old(self).toks@.len() {
                old(self).cur + 1
            } else {
                old(self).cur as int
            },
            final(self).toks@ == old(self).toks@,
            final(self).pos@ == old(self).pos@,
            final(self).src@ == old(self).src@,
            final(self).rune == old(self).rune,
    {
        if self.cur >= self.toks.len() {
            return Err(self.unexpected(ErrorKind::UnexpectedEnd));
        }
        let err = self.unexpected(ErrorKind::ExpectedOneOf);
        let tok = self.consume_token();
        let mut found: bool = false;
        let mut i: usize = 0;
        while i < kinds.len()
            invariant
                0 <= i <= kinds@.len(),
                found <==> exists|j: int| 0 <= j < i && kinds@[j] == tok.kind,
            decreases kinds@.len() - i,
        {
            if kinds[i] == tok.kind {
                found = true;
            }
            i = i + 1;
        }
        if found {
            Ok(tok)
        } else {
            Err(err)
        }
    }

    /// Gives every gathered token its kind: operators, keywords, types,
    /// literals and identifiers. The first token that is none of these is an error.
    pub fn lex(&mut self) -> (r: Result<(), CompileError>)
        ensures
            match classify_all(toks_view(old(self).toks@)) {
                Ok(ts) => r is Ok && toks_view(final(self).toks@) == ts,
                Err(e) => r matches Err(x) && x@ == e,
            },
            final(self).cur == old(self).cur,
            final(self).pos@ == old(self).pos@,
            final(self).src@ == old(self).src@,
            final(self).rune == old(self).rune,
    {
        let ghost orig = toks_view(self.toks@);
        let mut i: usize = 0;
        assert(orig.take(0) =~= Seq::<TokV>::empty());
        assert(toks_view(self.toks@).take(0) =~= Seq::<TokV>::empty());
        while i < self.toks.len()
            invariant
                0 <= i <= self.toks@.len(),
                self.toks@.len() == orig.len(),
                orig == toks_view(old(self).toks@),
                classify_all(orig.take(i as int)) == Ok::<Seq<TokV>, ErrV>(toks_view(self.toks@).take(i as int)),
                toks_view(self.toks@).skip(i as int) == orig.skip(i as int),
                self.cur == old(self).cur,
                self.pos@ == old(self).pos@,
                self.src@ == old(self).src@,
                self.rune == old(self).rune,
            decreases self.toks@.len() - i,
        {
            let tok = self.toks[i].clone();
            proof {
                assert(orig[i as int] == toks_view(self.toks@).skip(i as int)[0]);
                assert(orig.take(i as int + 1).drop_last() =~= orig.take(i as int));
                assert(orig.take(i as int + 1).last() == orig[i as int]);
            }
            match classify_tok(tok) {
                Ok(t) => {
                    let ghost before = toks_view(self.toks@);
                    self.toks.set(i, t);
                    proof {
                        assert(toks_view(self.toks@) =~= before.update(i as int, t@));
                        assert(toks_view(self.toks@).take(i as int + 1) =~= before.take(i as int).push(t@));
                        assert(before.skip(i as int).skip(1) =~= before.skip(i as int + 1));
                        assert(orig.skip(i as int).skip(1) =~= orig.skip(i as int + 1));
                        assert(toks_view(self.toks@).skip(i as int + 1) =~= orig.skip(i as int + 1));
                    }
                    i = i + 1;
                },
                Err(e) => {
                    proof {
                        lemma_classify_all_prefix_err(orig, i as int + 1);
                    }
                    return Err(e);
                },
            }
        }
        assert(orig.take(i as int) =~= orig);
        assert(toks_view(self.toks@).take(i as int) =~= toks_view(self.toks@));
        Ok(())
    }

    /// The value of an integer literal, or `None` where a byte is below
    /// `0` or the value does not fit in 64 bits.
    pub fn int_value(v: &Vec<u8>) -> (r: Option<i64>)
        ensures
            r == int_literal(v@),
    {
        if v.len() == 0 {
            return None;
        }
        let mut res: i64 = 0;
        let mut i: usize = 0;
        while i < v.len()
            invariant
                0 <= i <= v@.len(),
                v@.len() > 0,
                forall|k: int| 0 <= k < i ==> v@[k] >= 48,
                res == digits_value(v@.take(i as int)),
                0 <= res,
            decreases v@.len() - i,
        {
            assert(v@.take(i as int + 1).drop_last() =~= v@.take(i as int));
            if v[i] < 48 {
                return None;
            }
            let d: i64 = (v[i] - 48) as i64;
            let next: Option<i64> = match res.checked_mul(10) {
                Some(m) => m.checked_add(d),
                None => None,
            };
            match next {
                Some(x) => {
                    res = x;
                },
                None => {
                    proof {
                        if forall|k: int| 0 <= k < v@.len() ==> v@[k] >= 48 {
                            lemma_digits_prefix_le(v@, i as int + 1, v@.len() as int);
                            assert(v@.take(v@.len() as int) =~= v@);
                        }
                    }
                    return None;
                },
            }
            i = i + 1;
        }
        assert(v@.take(v@.len() as int) =~= v@);
        Some(res)
    }

    /// The value of the decimal digits of a token.
    pub fn vec_val(v: &Vec<u8>) -> (r: i64)
        requires
            v@.len() > 0,
            v@.len() <= 19,
            forall|i: int| 0 <= i < v@.len() ==> v@[i] >= 48,
            digits_value(v@) <= i64::MAX,
        ensures
            r == digits_value(v@),
    {
        let mut res: i64 = 0;
        let mut i: usize = 0;
        proof {
            lemma_digits_prefix_le(v@, 0, v@.len() as int);
        }
        while i < v.len()
            invariant
                0 <= i <= v@.len(),
                forall|k: int| 0 <= k < v@.len() ==> v@[k] >= 48,
                digits_value(v@) <= i64::MAX,
                res == digits_value(v@.take(i as int)),
            decreases v@.len() - i,
        {
            proof {
                lemma_digits_prefix_le(v@, i as int + 1, v@.len() as int);
                assert(v@.take(i as int + 1).drop_last() =~= v@.take(i as int));
                assert(v@.take(v@.len() as int) =~= v@);
            }
            let d: u8 = v[i] - 48;
            res = res * 10 + d as i64;
            i = i + 1;
        }
        assert(v@.take(v@.len() as int) =~= v@);
        res
    }
}

/// The value of an integer literal, where each byte is at least `0` and
/// the value fits in 64 bits.
pub open spec fn int_literal(v: Seq<u8>) -> Option<i64> {
    if v.len() > 0 && (forall|i: int| 0 <= i < v.len() ==> v[i] >= 48) && digits_value(v) <= i64::MAX {
        Some(digits_value(v) as i64)
    } else {
        None
    }
}

/// The kinds that name a type.
pub open spec fn is_type_kind(k: TokKind) -> bool {
    k == TokKind::TypeVoid || k == TokKind::TypeInt64 || k == TokKind::TypeInt64Ptr || k == TokKind::TypeChr
        || k == TokKind::TypeChrPtr || k == TokKind::TypeAnyPtr
}

/// The error for tokens that ran out, at the end of the source.
pub open spec fn end_error(end: PosV) -> ErrV {
    ErrV { kind: ErrorKind::UnexpectedEnd, pos: end, text: Seq::<u8>::empty() }
}

/// The error for a token that is not what was expected.
pub open spec fn tok_error(kind: ErrorKind, t: TokV) -> ErrV {
    ErrV { kind, pos: t.pos, text: t.val }
}

/// The token at `cur`, which must name a type.
pub open spec fn take_type(toks: Seq<TokV>, end: PosV, cur: int) -> Result<TokV, ErrV> {
    if cur < 0 || cur >= toks.len() {
        Err(end_error(end))
    } else if is_type_kind(toks[cur].kind) {
        Ok(toks[cur])
    } else {
        Err(tok_error(ErrorKind::ExpectedType, toks[cur]))
    }
}

/// The token at `cur`, which must be of the given kind.
pub open spec fn take_kind(toks: Seq<TokV>, end: PosV, cur: int, kind: TokKind) -> Result<TokV, ErrV> {
    if cur < 0 || cur >= toks.len() {
        Err(end_error(end))
    } else if toks[cur].kind == kind {
        Ok(toks[cur])
    } else {
        Err(tok_error(ErrorKind::ExpectedToken(kind), toks[cur]))
    }
}

/// The token at `cur`, which must be of one of the given kinds.
pub open spec fn take_one_of(toks: Seq<TokV>, end: PosV, cur: int, kinds: Seq<TokKind>) -> Result<TokV, ErrV> {
    if cur < 0 || cur >= toks.len() {
        Err(end_error(end))
    } else if kinds.contains(toks[cur].kind) {
        Ok(toks[cur])
    } else {
        Err(tok_error(ErrorKind::ExpectedOneOf, toks[cur]))
    }
}

/// The kind of a one-byte token.
pub open spec fn single_kind(c: u8) -> Option<TokKind> {
    if c == 43 {
        Some(TokKind::Plus)
    } else if c == 45 {
        Some(TokKind::Minus)
    } else if c == 42 {
        Some(TokKind::Mul)
    } else if c == 47 {
        Some(TokKind::Div)
    } else if c == 61 {
        Some(TokKind::Assign)
    } else if c == 62 {
        Some(TokKind::GT)
    } else if c == 60 {
        Some(TokKind::LT)
    } else if c == 64 {
        Some(TokKind::Deref)
    } else if c == 40 {
        Some(TokKind::OParen)
    } else if c == 41 {
        Some(TokKind::CParen)
    } else if c == 91 {
        Some(TokKind::OSquare)
    } else if c == 93 {
        Some(TokKind::CSquare)
    } else if c == 123 {
        Some(TokKind::OScope)
    } else if c == 125 {
        Some(TokKind::CScope)
    } else if c == 59 {
        Some(TokKind::End)
    } else if c == 44 {
        Some(TokKind::Separator)
    } else if c == 37 {
        Some(TokKind::Mod)
    } else if 48 <= c <= 57 {
        Some(TokKind::Int)
    } else if 65 <= c <= 122 {
        Some(TokKind::Ident)
    } else {
        None
    }
}

/// The kind of a token of several bytes that is an operator, a keyword,
/// a type or `syscall`.
pub open spec fn word_kind(v: Seq<u8>) -> Option<TokKind> {
    if v == seq![61u8, 61] {
        Some(TokKind::Equal)
    } else if v == seq![33u8, 61] {
        Some(TokKind::NotEqual)
    } else if v == seq![62u8, 61] {
        Some(TokKind::GE)
    } else if v == seq![60u8, 61] {
        Some(TokKind::LE)
    } else if v == seq![38u8, 38] {
        Some(TokKind::LogAnd)
    } else if v == seq![124u8, 124] {
        Some(TokKind::LogOr)
    } else if v == seq![105u8, 102] {
        Some(TokKind::If)
    } else if v == seq![101u8, 108, 115, 101] {
        Some(TokKind::Else)
    } else if v == seq![102u8, 111, 114] {
        Some(TokKind::For)
    } else if v == seq![119u8, 104, 105, 108, 101] {
        Some(TokKind::While)
    } else if v == seq![99u8, 111, 110, 116, 105, 110, 117, 101] {
        Some(TokKind::Continue)
    } else if v == seq![98u8, 114, 101, 97, 107] {
        Some(TokKind::Break)
    } else if v == seq![114u8, 101, 116, 117, 114, 110] {
        Some(TokKind::Return)
    } else if v == seq![105u8, 110, 99, 108, 117, 100, 101] {
        Some(TokKind::Include)
    } else if v == seq![118u8, 111, 105, 100] {
        Some(TokKind::TypeVoid)
    } else if v == seq![105u8, 54, 52] {
        Some(TokKind::TypeInt64)
    } else if v == seq![105u8, 54, 52, 94] {
        Some(TokKind::TypeInt64Ptr)
    } else if v == seq![99u8, 104, 114] {
        Some(TokKind::TypeChr)
    } else if v == seq![99u8, 104, 114, 94] {
        Some(TokKind::TypeChrPtr)
    } else if v == seq![97u8, 110, 121, 94] {
        Some(TokKind::TypeAnyPtr)
    } else if v == seq![115u8, 121, 115, 99, 97, 108, 108] {
        Some(TokKind::Syscall)
    } else {
        None
    }
}

pub open spec fn is_digit(c: u8) -> bool {
    48 <= c <= 57
}

pub open spec fn is_alpha(c: u8) -> bool {
    (65 <= c <= 90) || (97 <= c <= 122)
}

/// Bytes that identifiers may not hold.
pub open spec fn forbidden_in_ident(c: u8) -> bool {
    c == 34 || c == 36 || c == 37 || c == 94 || c == 38 || c == 126 || c == 35 || c == 92 || c == 44
        || c == 46 || c == 96 || c == 33
}

/// The first byte from index `i` on that identifiers may not hold.
pub open spec fn first_forbidden(v: Seq<u8>, i: int) -> Option<u8>
    decreases v.len() - i,
{
    if i < 0 || i >= v.len() {
        None
    } else if forbidden_in_ident(v[i]) {
        Some(v[i])
    } else {
        first_forbidden(v, i + 1)
    }
}

/// The kind of a gathered token, with the quotes of a literal taken off
/// and a string literal ended by a zero byte.
pub open spec fn classify(t: TokV) -> Result<TokV, ErrV> {
    let v = t.val;
    if v.len() == 0 {
        Err(ErrV { kind: ErrorKind::EmptyToken, pos: t.pos, text: v })
    } else if v.len() == 1 {
        match single_kind(v[0]) {
            Some(k) => Ok(TokV { kind: k, ..t }),
            None => Err(tok_error(ErrorKind::InvalidToken, t)),
        }
    } else if utf8_text(v) is None {
        Err(tok_error(ErrorKind::InvalidUtf8, t))
    } else {
        match word_kind(v) {
            Some(k) => Ok(TokV { kind: k, ..t }),
            None => {
                if (forall|i: int| 1 <= i < v.len() ==> #[trigger] is_digit(v[i])) && (is_digit(v[0]) || v[0] == 45) {
                    Ok(TokV { kind: TokKind::Int, ..t })
                } else if v[0] == 39 {
                    Ok(TokV { kind: TokKind::Char, val: v.subrange(1, v.len() - 1), ..t })
                } else if v[0] == 34 {
                    Ok(TokV { kind: TokKind::String, val: v.subrange(1, v.len() - 1).push(0), ..t })
                } else if is_alpha(v[0]) {
                    match first_forbidden(v, 0) {
                        Some(c) => Err(ErrV { kind: ErrorKind::InvalidIdentChar(c), pos: t.pos, text: seq![c] }),
                        None => Ok(TokV { kind: TokKind::Ident, ..t }),
                    }
                } else {
                    Err(tok_error(ErrorKind::InvalidToken, t))
                }
            },
        }
    }
}

/// The kinds of a sequence of tokens: the first error, or all of them classified.
pub open spec fn classify_all(ts: Seq<TokV>) -> Result<Seq<TokV>, ErrV>
    decreases ts.len(),
{
    if ts.len() == 0 {
        Ok(Seq::<TokV>::empty())
    } else {
        match classify_all(ts.drop_last()) {
            Err(e) => Err(e),
            Ok(p) => match classify(ts.last()) {
                Ok(t) => Ok(p.push(t)),
                Err(e) => Err(e),
            },
        }
    }
}

fn word_kind_of(v: &Vec<u8>) -> (r: Option<TokKind>)
    ensures
        r == word_kind(v@),
{
    let s = v.as_slice();
    if bytes_eq(s, &[61u8, 61]) {
        Some(TokKind::Equal)
    } else if bytes_eq(s, &[33u8, 61]) {
        Some(TokKind::NotEqual)
    } else if bytes_eq(s, &[62u8, 61]) {
        Some(TokKind::GE)
    } else if bytes_eq(s, &[60u8, 61]) {
        Some(TokKind::LE)
    } else if bytes_eq(s, &[38u8, 38]) {
        Some(TokKind::LogAnd)
    } else if bytes_eq(s, &[124u8, 124]) {
        Some(TokKind::LogOr)
    } else if bytes_eq(s, &[105u8, 102]) {
        Some(TokKind::If)
    } else if bytes_eq(s, &[101u8, 108, 115, 101]) {
        Some(TokKind::Else)
    } else if bytes_eq(s, &[102u8, 111, 114]) {
        Some(TokKind::For)
    } else if bytes_eq(s, &[119u8, 104, 105, 108, 101]) {
        Some(TokKind::While)
    } else if bytes_eq(s, &[99u8, 111, 110, 116, 105, 110, 117, 101]) {
        Some(TokKind::Continue)
    } else if bytes_eq(s, &[98u8, 114, 101, 97, 107]) {
        Some(TokKind::Break)
    } else if bytes_eq(s, &[114u8, 101, 116, 117, 114, 110]) {
        Some(TokKind::Return)
    } else if bytes_eq(s, &[105u8, 110, 99, 108, 117, 100, 101]) {
        Some(TokKind::Include)
    } else if bytes_eq(s, &[118u8, 111, 105, 100]) {
        Some(TokKind::TypeVoid)
    } else if bytes_eq(s, &[105u8, 54, 52]) {
        Some(TokKind::TypeInt64)
    } else if bytes_eq(s, &[105u8, 54, 52, 94]) {
        Some(TokKind::TypeInt64Ptr)
    } else if bytes_eq(s, &[99u8, 104, 114]) {
        Some(TokKind::TypeChr)
    } else if bytes_eq(s, &[99u8, 104, 114, 94]) {
        Some(TokKind::TypeChrPtr)
    } else if bytes_eq(s, &[97u8, 110, 121, 94]) {
        Some(TokKind::TypeAnyPtr)
    } else if bytes_eq(s, &[115u8, 121, 115, 99, 97, 108, 108]) {
        Some(TokKind::Syscall)
    } else {
        None
    }
}

fn single_kind_of(c: u8) -> (r: Option<TokKind>)
    ensures
        r == single_kind(c),
{
    match c {
        43 => Some(TokKind::Plus),
        45 => Some(TokKind::Minus),
        42 => Some(TokKind::Mul),
        47 => Some(TokKind::Div),
        61 => Some(TokKind::Assign),
        62 => Some(TokKind::GT),
        60 => Some(TokKind::LT),
        64 => Some(TokKind::Deref),
        40 => Some(TokKind::OParen),
        41 => Some(TokKind::CParen),
        91 => Some(TokKind::OSquare),
        93 => Some(TokKind::CSquare),
        123 => Some(TokKind::OScope),
        125 => Some(TokKind::CScope),
        59 => Some(TokKind::End),
        44 => Some(TokKind::Separator),
        37 => Some(TokKind::Mod),
        48..=57 => Some(TokKind::Int),
        65..=122 => Some(TokKind::Ident),
        _ => None,
    }
}

fn find_forbidden(v: &Vec<u8>) -> (r: Option<u8>)
    ensures
        r == first_forbidden(v@, 0),
{
    let mut i: usize = 0;
    while i < v.len()
        invariant
            0 <= i <= v@.len(),
            first_forbidden(v@, i as int) == first_forbidden(v@, 0),
        decreases v@.len() - i,
    {
        let c: u8 = v[i];
        if c == 34 || c == 36 || c == 37 || c == 94 || c == 38 || c == 126 || c == 35 || c == 92 || c == 44
            || c == 46 || c == 96 || c == 33 {
            return Some(c);
        }
        i = i + 1;
    }
    None
}

fn tail_digits(v: &Vec<u8>) -> (r: bool)
    ensures
        r == (forall|i: int| 1 <= i < v@.len() ==> #[trigger] is_digit(v@[i])),
{
    let mut i: usize = 1;
    while i < v.len()
        invariant
            1 <= i,
            i <= v@.len() || v@.len() == 0,
            forall|k: int| 1 <= k < i && k < v@.len() ==> #[trigger] is_digit(v@[k]),
        decreases v@.len() - i,
    {
        if !(48 <= v[i] && v[i] <= 57) {
            assert(!is_digit(v@[i as int]));
            return false;
        }
        i = i + 1;
    }
    true
}

/// Gives a gathered token its kind.
fn classify_tok(tok: Tok) -> (r: Result<Tok, CompileError>)
    ensures
        res_view(r) == classify(tok@),
{
    let n: usize = tok.val.len();
    if n == 0 {
        return Err(CompileError { kind: ErrorKind::EmptyToken, pos: tok.pos.clone(), text: tok.val.clone() });
    }
    if n == 1 {
        return match single_kind_of(tok.val[0]) {
            Some(k) => Ok(Tok { kind: k, val: tok.val, pos: tok.pos }),
            None => Err(CompileError { kind: ErrorKind::InvalidToken, pos: tok.pos, text: tok.val }),
        };
    }
    if decode_utf8(&tok.val).is_none() {
        return Err(CompileError { kind: ErrorKind::InvalidUtf8, pos: tok.pos, text: tok.val });
    }
    if let Some(k) = word_kind_of(&tok.val) {
        return Ok(Tok { kind: k, val: tok.val, pos: tok.pos });
    }
    let first: u8 = tok.val[0];
    if tail_digits(&tok.val) && ((48 <= first && first <= 57) || first == 45) {
        Ok(Tok { kind: TokKind::Int, val: tok.val, pos: tok.pos })
    } else if first == 39 || first == 34 {
        let mut val: Vec<u8> = Vec::new();
        let mut i: usize = 1;
        while i < n - 1
            invariant
                n == tok.val@.len(),
                n >= 2,
                1 <= i <= n - 1,
                val@ == tok.val@.subrange(1, i as int),
            decreases n - 1 - i,
        {
            val.push(tok.val[i]);
            i = i + 1;
            assert(val@ =~= tok.val@.subrange(1, i as int));
        }
        if first == 39 {
            Ok(Tok { kind: TokKind::Char, val, pos: tok.pos })
        } else {
            val.push(0);
            Ok(Tok { kind: TokKind::String, val, pos: tok.pos })
        }
    } else if (65 <= first && first <= 90) || (97 <= first && first <= 122) {
        match find_forbidden(&tok.val) {
            Some(c) => {
                let text: Vec<u8> = vec![c];
                assert(text@ =~= seq![c]);
                Err(CompileError { kind: ErrorKind::InvalidIdentChar(c), pos: tok.pos, text })
            },
            None => Ok(Tok { kind: TokKind::Ident, val: tok.val, pos: tok.pos }),
        }
    } else {
        Err(CompileError { kind: ErrorKind::InvalidToken, pos: tok.pos, text: tok.val })
    }
}

/// The value of a string of digits, each byte counting as its distance from `0`.
pub open spec fn digits_value(v: Seq<u8>) -> int
    decreases v.len(),
{
    if v.len() == 0 {
        0
    } else {
        digits_value(v.drop_last()) * 10 + (v.last() - 48)
    }
}

proof fn lemma_classify_all_prefix_err(ts: Seq<TokV>, n: int)
    requires
        0 < n <= ts.len(),
        classify_all(ts.take(n)) is Err,
    ensures
        classify_all(ts) == classify_all(ts.take(n)),
    decreases ts.len() - n,
{
    if n < ts.len() {
        assert(ts.take(n + 1).drop_last() =~= ts.take(n));
        lemma_classify_all_prefix_err(ts, n + 1);
    } else {
        assert(ts.take(n) =~= ts);
    }
}

proof fn lemma_digits_nonneg(v: Seq<u8>, j: int)
    requires
        0 <= j <= v.len(),
        forall|k: int| 0 <= k < v.len() ==> v[k] >= 48,
    ensures
        0 <= digits_value(v.take(j)),
    decreases j,
{
    if j > 0 {
        lemma_digits_nonneg(v, j - 1);
        assert(v.take(j).drop_last() =~= v.take(j - 1));
    }
}

proof fn lemma_digits_prefix_le(v: Seq<u8>, i: int, j: int)
    requires
        0 <= i <= j <= v.len(),
        forall|k: int| 0 <= k < v.len() ==> v[k] >= 48,
    ensures
        0 <= digits_value(v.take(i)) <= digits_value(v.take(j)),
    decreases j - i,
{
    lemma_digits_nonneg(v, i);
    if i < j {
        lemma_digits_prefix_le(v, i, j - 1);
        lemma_digits_nonneg(v, j - 1);
        assert(v.take(j).drop_last() =~= v.take(j - 1));
    }
}

} // verus!
