use vstd::prelude::*;

use crate::error::{res_view, CompileError};
use crate::lex::{take_kind, toks_view, Lexer, Tok, TokKind, TokV};

verus! {

/// The place of the first `include` at or after `cur`, among the tokens
/// that have a token after them.
pub open spec fn next_include_at(toks: Seq<TokV>, cur: int) -> Option<int>
    decreases toks.len() - cur,
{
    if cur < 0 || cur >= toks.len() - 1 {
        None
    } else if toks[cur].kind == TokKind::Include {
        Some(cur)
    } else {
        next_include_at(toks, cur + 1)
    }
}

/// The tokens with the two at `at` and `at + 1` replaced by others.
pub open spec fn spliced(toks: Seq<TokV>, at: int, ins: Seq<TokV>) -> Seq<TokV> {
    toks.take(at) + ins + toks.skip(at + 2)
}

/// Splices included files into a token stream.
pub struct Processor {}

impl Processor {
    pub fn new() -> (r: Self) {
        Processor {  }
    }

    /// Moves the lexer's cursor past the next `include` and the string
    /// that names its file, and gives that string; `None`, the cursor on
    /// the last token, where no `include` is left. An `include` must be
    /// followed by a string.
    pub fn next_include(&mut self, lexer: &mut Lexer) -> (r: Result<Option<Tok>, CompileError>)
        requires
            old(lexer).toks@.len() > 0,
        ensures
            final(lexer).toks@ == old(lexer).toks@,
            final(lexer).pos@ == old(lexer).pos@,
            final(lexer).src@ == old(lexer).src@,
            final(lexer).rune == old(lexer).rune,
            match next_include_at(toks_view(old(lexer).toks@), old(lexer).cur as int) {
                None => r matches Ok(None) && final(lexer).cur == (if old(lexer).cur < old(lexer).toks@.len() - 1 {
                    old(lexer).toks@.len() - 1
                } else {
                    old(lexer).cur as int
                }),
                Some(k) => match take_kind(toks_view(old(lexer).toks@), old(lexer).pos@, k + 1, TokKind::String) {
                    Ok(t) => r matches Ok(Some(f)) && f@ == t && final(lexer).cur == k + 2,
                    Err(e) => r matches Err(err) && err@ == e,
                },
            },
    {
        let ghost toks = toks_view(lexer.toks@);
        let ghost goal = next_include_at(toks, lexer.cur as int);
        while lexer.has_token()
            invariant
                toks == toks_view(lexer.toks@),
                lexer.toks@.len() > 0,
                lexer.toks@ == old(lexer).toks@,
                lexer.pos@ == old(lexer).pos@,
                lexer.src@ == old(lexer).src@,
                lexer.rune == old(lexer).rune,
                goal == next_include_at(toks_view(old(lexer).toks@), old(lexer).cur as int),
                goal == next_include_at(toks, lexer.cur as int),
                old(lexer).cur < old(lexer).toks@.len() - 1 ==> lexer.cur <= lexer.toks@.len() - 1,
                old(lexer).cur >= old(lexer).toks@.len() - 1 ==> lexer.cur == old(lexer).cur,
            decreases lexer.toks@.len() - lexer.cur,
        {
            let tok = lexer.consume_token();
            if tok.kind == TokKind::Include {
                let file = lexer.expect_token(TokKind::String)?;
                return Ok(Some(file));
            }
        }
        Ok(None)
    }

    /// Puts the tokens of an included file in place of the `include` and
    /// the string just before the cursor, and moves the cursor past them.
    pub fn splice(&mut self, lexer: &mut Lexer, toks: Vec<Tok>)
        requires
            2 <= old(lexer).cur <= old(lexer).toks@.len(),
        ensures
            toks_view(final(lexer).toks@) == spliced(toks_view(old(lexer).toks@), old(lexer).cur - 2, toks_view(toks@)),
            final(lexer).cur == old(lexer).cur - 2 + toks@.len(),
            final(lexer).pos@ == old(lexer).pos@,
            final(lexer).src@ == old(lexer).src@,
            final(lexer).rune == old(lexer).rune,
    {
        let ghost before = toks_view(lexer.toks@);
        let ghost ins = toks_view(toks@);
        let ghost at: int = lexer.cur - 2;
        lexer.cur = lexer.cur - 2;
        let at_cur: usize = lexer.cur;
        let _ = lexer.toks.remove(at_cur);
        let _ = lexer.toks.remove(at_cur);
        assert(toks_view(lexer.toks@) =~= before.take(at) + before.skip(at + 2));
        let mut i: usize = 0;
        while i < toks.len()
            invariant
                0 <= i <= toks@.len(),
                ins == toks_view(toks@),
                at == at_cur,
                lexer.cur == at_cur + i,
                0 <= at <= before.len() - 2,
                lexer.toks@.len() == before.len() - 2 + i,
                toks_view(lexer.toks@) == before.take(at) + ins.take(i as int) + before.skip(at + 2),
                lexer.pos@ == old(lexer).pos@,
                lexer.src@ == old(lexer).src@,
                lexer.rune == old(lexer).rune,
            decreases toks@.len() - i,
        {
            let t = toks[i].clone();
            let c: usize = lexer.cur;
            let ghost tv = t@;
            let ghost pre = toks_view(lexer.toks@);
            lexer.toks.insert(c, t);
            assert(toks_view(lexer.toks@) =~= pre.insert(c as int, tv));
            assert(tv == ins[i as int]);
            assert(ins.take(i as int + 1) =~= ins.take(i as int).push(ins[i as int]));
            assert(toks_view(lexer.toks@) =~= before.take(at) + ins.take(i as int + 1) + before.skip(at + 2));
            let n: usize = lexer.toks.len();
            lexer.cur = c + 1;
            i = i + 1;
        }
        assert(ins.take(toks@.len() as int) =~= ins);
    }
}

impl Default for Processor {
    fn default() -> (r: Self) {
        Self::new()
    }
}

} // verus!
