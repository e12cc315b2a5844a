use vstd::prelude::*;

use crate::irgen::IR;
use crate::represent::{instrs_view, iv, Instr, InstrKind, InstrV};

verus! {

/// The place of the nearest instruction at or before `j` that is neither
/// a comment nor culled.
pub open spec fn prev_live(s: Seq<InstrV>, j: int) -> Option<int>
    decreases j + 1,
{
    if j < 0 || j >= s.len() {
        None
    } else if s[j].kind == InstrKind::Comment || s[j].kind == InstrKind::Culled {
        prev_live(s, j - 1)
    } else {
        Some(j)
    }
}

/// What `prev_live` finds is at or before where it starts, and is neither
/// a comment nor culled.
pub proof fn lemma_prev_live(s: Seq<InstrV>, j: int)
    ensures
        prev_live(s, j) matches Some(k) ==> 0 <= k <= j < s.len() && s[k].kind != InstrKind::Comment && s[k].kind
            != InstrKind::Culled,
    decreases j + 1,
{
    if 0 <= j < s.len() && (s[j].kind == InstrKind::Comment || s[j].kind == InstrKind::Culled) {
        lemma_prev_live(s, j - 1);
    }
}

/// A pop fused with the push before it: the push culled, and the pop
/// culled where it pops what was pushed, else turned into a copy.
pub open spec fn fuse(s: Seq<InstrV>, j: int, cur: int) -> Seq<InstrV> {
    let pop = s[cur];
    let push = s[j];
    let s2 = s.update(j, InstrV { kind: InstrKind::Culled, ..push });
    if pop.opera != push.opera {
        s2.update(cur, iv(InstrKind::CopyToRegA, pop.opera, push.opera))
    } else {
        s2.update(cur, InstrV { kind: InstrKind::Culled, ..pop })
    }
}

/// A peephole pass over the instructions from `cur` on: each pop right
/// after a push (comments and culled instructions between them aside) is
/// fused with it, and the instruction after a fused pop is skipped. Gives
/// the instructions, where the cursor ends, and whether anything was fused;
/// `None` where a pop has no instruction before it, or a fused pop is the
/// last instruction.
pub open spec fn pass_from(s: Seq<InstrV>, cur: int, changed: bool) -> Option<(Seq<InstrV>, int, bool)>
    decreases s.len() - cur,
{
    if cur < 0 || cur >= s.len() {
        Some((s, cur, changed))
    } else if s[cur].kind == InstrKind::Pop {
        match prev_live(s, cur - 1) {
            None => None,
            Some(j) => if s[j].kind == InstrKind::Push {
                if cur + 1 >= s.len() {
                    None
                } else {
                    proof {
                        lemma_prev_live(s, cur - 1);
                    }
                    pass_from(fuse(s, j, cur), cur + 2, true)
                }
            } else {
                pass_from(s, cur + 1, changed)
            },
        }
    } else {
        pass_from(s, cur + 1, changed)
    }
}

/// The instructions that are not culled, in order.
pub open spec fn live(s: Seq<InstrV>) -> Seq<InstrV>
    decreases s.len(),
{
    if s.len() == 0 {
        s
    } else if s.last().kind == InstrKind::Culled {
        live(s.drop_last())
    } else {
        live(s.drop_last()).push(s.last())
    }
}

/// One peephole pass from the cursor, then the culled instructions taken
/// out.
pub open spec fn peephole_spec(s: Seq<InstrV>, cur: int) -> Option<(Seq<InstrV>, int, bool)> {
    match pass_from(s, cur, false) {
        None => None,
        Some((s2, c2, ch)) => Some((live(s2), c2, ch)),
    }
}

/// The measure that a pass that fuses something lowers.
pub open spec fn unscanned(s: Seq<InstrV>, cur: int) -> int {
    if 0 <= cur < s.len() {
        s.len() - cur
    } else {
        0
    }
}

/// Peephole passes from the cursor until one fuses nothing.
pub open spec fn optimise_from(s: Seq<InstrV>, cur: int) -> Option<(Seq<InstrV>, int)>
    decreases unscanned(s, cur),
{
    match peephole_spec(s, cur) {
        None => None,
        Some((s2, c2, ch)) => if ch {
            proof {
                lemma_pass(s, cur, false);
                lemma_live_len(pass_from(s, cur, false).unwrap().0);
            }
            optimise_from(s2, c2)
        } else {
            Some((s2, c2))
        },
    }
}

/// A pass keeps the number of instructions, ends its cursor at or past
/// the end, and fuses something only where it had something to scan.
pub proof fn lemma_pass(s: Seq<InstrV>, cur: int, changed: bool)
    ensures
        pass_from(s, cur, changed) matches Some((s2, c2, ch)) ==> {
            &&& s2.len() == s.len()
            &&& (cur >= 0 ==> c2 >= s.len())
            &&& (cur < 0 ==> c2 == cur)
            &&& (ch && !changed ==> 0 <= cur < s.len())
        },
    decreases s.len() - cur,
{
    if 0 <= cur < s.len() {
        if s[cur].kind == InstrKind::Pop {
            match prev_live(s, cur - 1) {
                None => {},
                Some(j) => {
                    if s[j].kind == InstrKind::Push {
                        if cur + 1 < s.len() {
                            lemma_prev_live(s, cur - 1);
                            lemma_pass(fuse(s, j, cur), cur + 2, true);
                        }
                    } else {
                        lemma_pass(s, cur + 1, changed);
                    }
                },
            }
        } else {
            lemma_pass(s, cur + 1, changed);
        }
    }
}

/// Taking out the culled instructions leaves no more than there were.
pub proof fn lemma_live_len(s: Seq<InstrV>)
    ensures
        live(s).len() <= s.len(),
        forall|i: int| 0 <= i < live(s).len() ==> live(s)[i].kind != InstrKind::Culled,
    decreases s.len(),
{
    if s.len() > 0 {
        lemma_live_len(s.drop_last());
    }
}

/// Without culled instructions, taking them out changes nothing.
proof fn lemma_live_id(s: Seq<InstrV>)
    requires
        forall|i: int| 0 <= i < s.len() ==> s[i].kind != InstrKind::Culled,
    ensures
        live(s) == s,
    decreases s.len(),
{
    if s.len() > 0 {
        lemma_live_id(s.drop_last());
        assert(s.drop_last().push(s.last()) =~= s);
    }
}

/// Optimising never adds instructions and leaves none culled; it leaves
/// the cursor at the end, so optimising again changes nothing.
pub proof fn law_optimise(s: Seq<InstrV>, cur: int)
    requires
        cur >= 0,
    ensures
        optimise_from(s, cur) matches Some((s2, c2)) ==> {
            &&& s2.len() <= s.len()
            &&& forall|i: int| 0 <= i < s2.len() ==> s2[i].kind != InstrKind::Culled
            &&& c2 >= s2.len()
            &&& optimise_from(s2, c2) == Some((s2, c2))
        },
    decreases unscanned(s, cur),
{
    lemma_pass(s, cur, false);
    match pass_from(s, cur, false) {
        None => {},
        Some((p, c, ch)) => {
            lemma_live_len(p);
            if ch {
                law_optimise(live(p), c);
            } else {
                let s2 = live(p);
                lemma_live_id(s2);
                assert(pass_from(s2, c, false) == Some((s2, c, false)));
                assert(peephole_spec(s2, c) == Some((s2, c, false)));
            }
        },
    }
}

/// The place of the nearest earlier instruction that is neither a comment
/// nor culled.
pub open spec fn prev_index(s: Seq<InstrV>, cur: int) -> Option<int> {
    prev_live(s, cur - 1)
}

/// The peephole optimiser.
pub struct Optimiser {}

impl Optimiser {
    pub fn new() -> (r: Self) {
        Optimiser {  }
    }

    /// Runs peephole passes from the cursor of the IR until one fuses
    /// nothing. Gives `false`, the instructions left unspecified, where a
    /// pass meets a pop with no instruction before it or a fused pop that
    /// ends the code.
    pub fn optimise(&mut self, ir: &mut IR) -> (r: bool)
        ensures
            match optimise_from(instrs_view(old(ir).instrs@), old(ir).cur as int) {
                Some((s, c)) => r && instrs_view(final(ir).instrs@) == s && final(ir).cur == c,
                None => !r,
            },
            final(ir).labels == old(ir).labels,
            final(ir).strs == old(ir).strs,
            final(ir).ast == old(ir).ast,
    {
        let ghost goal = optimise_from(instrs_view(ir.instrs@), ir.cur as int);
        let mut ph: bool = match self.peephole(ir) {
            Some(c) => c,
            None => {
                return false;
            },
        };
        while ph
            invariant
                goal == optimise_from(instrs_view(old(ir).instrs@), old(ir).cur as int),
                ph ==> goal == optimise_from(instrs_view(ir.instrs@), ir.cur as int),
                !ph ==> goal == Some((instrs_view(ir.instrs@), ir.cur as int)),
                ir.cur >= ir.instrs@.len(),
                ir.labels == old(ir).labels,
                ir.strs == old(ir).strs,
                ir.ast == old(ir).ast,
            decreases (if ph { 1int } else { 0int }),
        {
            ph = match self.peephole(ir) {
                Some(c) => c,
                None => {
                    return false;
                },
            };
            assert(!ph);
        }
        true
    }

    /// The nearest earlier instruction than the cursor that is neither a
    /// comment nor culled.
    fn prev_instr(&self, ir: &IR) -> (r: Option<usize>)
        requires
            ir.cur < ir.instrs@.len(),
        ensures
            match prev_index(instrs_view(ir.instrs@), ir.cur as int) {
                Some(j) => r == Some(j as usize),
                None => r is None,
            },
    {
        let ghost s = instrs_view(ir.instrs@);
        let n: usize = ir.instrs.len();
        let mut ofst: usize = 1;
        while ofst <= ir.cur
            invariant
                n == ir.instrs@.len(),
                s == instrs_view(ir.instrs@),
                ir.cur < ir.instrs@.len(),
                1 <= ofst <= ir.cur + 1,
                prev_live(s, ir.cur - 1) == prev_live(s, ir.cur - ofst),
            decreases ir.cur + 1 - ofst,
        {
            let k = &ir.instrs[ir.cur - ofst].kind;
            if *k != InstrKind::Comment && *k != InstrKind::Culled {
                return Some(ir.cur - ofst);
            }
            ofst = ofst + 1;
        }
        None
    }

    /// One peephole pass from the cursor of the IR, then the culled
    /// instructions taken out. Gives whether anything was fused, or `None`
    /// where the pass meets a pop with no instruction before it or a fused
    /// pop that ends the code.
    fn peephole(&mut self, ir: &mut IR) -> (r: Option<bool>)
        ensures
            match peephole_spec(instrs_view(old(ir).instrs@), old(ir).cur as int) {
                Some((s, c, ch)) => r == Some(ch) && instrs_view(final(ir).instrs@) == s && final(ir).cur == c,
                None => r is None,
            },
            r is Some ==> final(ir).cur >= final(ir).instrs@.len(),
            final(ir).labels == old(ir).labels,
            final(ir).strs == old(ir).strs,
            final(ir).ast == old(ir).ast,
    {
        let ghost goal = pass_from(instrs_view(ir.instrs@), ir.cur as int, false);
        proof {
            lemma_pass(instrs_view(ir.instrs@), ir.cur as int, false);
        }
        let mut did_change: bool = false;
        while ir.has_instr()
            invariant
                goal == pass_from(instrs_view(old(ir).instrs@), old(ir).cur as int, false),
                goal == pass_from(instrs_view(ir.instrs@), ir.cur as int, did_change),
                ir.instrs@.len() == old(ir).instrs@.len(),
                ir.labels == old(ir).labels,
                ir.strs == old(ir).strs,
                ir.ast == old(ir).ast,
            decreases ir.instrs@.len() - ir.cur,
        {
            let ghost s = instrs_view(ir.instrs@);
            let ghost dc = did_change;
            let cur: usize = ir.cur;
            let instr = ir.peek_instr();
            assert(instr@ == s[cur as int]);
            if instr.kind == InstrKind::Pop {
                proof {
                    lemma_prev_live(s, cur - 1);
                }
                let j: usize = match self.prev_instr(ir) {
                    Some(j) => j,
                    None => {
                        return None;
                    },
                };
                assert(ir.instrs@[j as int]@ == s[j as int]);
                if ir.instrs[j].kind == InstrKind::Push {
                    did_change = true;
                    let operb = ir.instrs[j].opera.clone();
                    let mut push = ir.instrs[j].clone();
                    push.kind = InstrKind::Culled;
                    ir.instrs.set(j, push);
                    if !instr.opera.same(&operb) {
                        ir.instrs.set(cur, Instr { kind: InstrKind::CopyToRegA, opera: instr.opera.clone(), operb });
                    } else {
                        let mut pop = instr.clone();
                        pop.kind = InstrKind::Culled;
                        ir.instrs.set(cur, pop);
                    }
                    assert(instrs_view(ir.instrs@) =~= fuse(s, j as int, cur as int));
                    if cur >= ir.instrs.len() - 1 {
                        return None;
                    }
                    assert(pass_from(s, cur as int, dc) == pass_from(fuse(s, j as int, cur as int), cur + 2, true));
                    ir.consume_instr();
                } else {
                    assert(pass_from(s, cur as int, dc) == pass_from(s, cur + 1, dc));
                }
            } else {
                assert(pass_from(s, cur as int, dc) == pass_from(s, cur + 1, dc));
            }
            if !ir.has_instr() {
                return None;
            }
            ir.consume_instr();
        }
        let ghost s2 = instrs_view(ir.instrs@);
        let mut kept: Vec<Instr> = Vec::new();
        let mut i: usize = 0;
        while i < ir.instrs.len()
            invariant
                s2 == instrs_view(ir.instrs@),
                0 <= i <= ir.instrs@.len(),
                instrs_view(kept@) == live(s2.take(i as int)),
            decreases ir.instrs@.len() - i,
        {
            assert(s2.take(i as int + 1).drop_last() =~= s2.take(i as int));
            if ir.instrs[i].kind != InstrKind::Culled {
                kept.push(ir.instrs[i].clone());
                assert(instrs_view(kept@) =~= live(s2.take(i as int)).push(s2[i as int]));
            }
            i = i + 1;
        }
        assert(s2.take(ir.instrs@.len() as int) =~= s2);
        proof {
            lemma_live_len(s2);
        }
        ir.instrs = kept;
        Some(did_change)
    }
}

impl Default for Optimiser {
    fn default() -> (r: Self) {
        Self::new()
    }
}

} // verus!
