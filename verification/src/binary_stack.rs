//! Nested strict binary expressions evaluated on an explicit work stack
//! rather than by recursion, so that a deep chain such as `a + b + c + ...`
//! takes heap, not native stack; and the proof that the stack gives what the
//! recursive evaluator gives.
use vstd::prelude::*;
use crate::value::{Value, ValueModel, Span, RuntimeError, ErrorModel, err_model, model_list};
use crate::ir::{FullProgram, FullTag, BinaryOp, binary_op_of};
use crate::evaluator::{Evaluator, cache_valid};
use crate::semantics::{Machine, Flow, ev_expr, ev_binary, binary_value};
use crate::interp::{machine_of, kept, IndexedFlow, instruction_at, binary_op_from, span_at, apply_binary, flow_outcome};
use crate::runs::span_of;

verus! {

/// An item of the work stack: an operand still to evaluate, or an operator
/// to apply to the two values on top of the value stack.
#[derive(Clone, Copy)]
pub enum BinaryWork {
    Apply { op: BinaryOp, span: Span },
    Expr(u32),
}

/// Whether an operator evaluates both of its operands.
pub open spec fn is_strict(op: BinaryOp) -> bool {
    op != BinaryOp::And && op != BinaryOp::Or
}

/// The operator, operands and span of instruction `i` when it is a
/// well-formed strict binary expression, which the stack takes apart;
/// any other instruction is evaluated as a whole.
pub open spec fn strict_binary_at(p: FullProgram, i: u32) -> Option<(BinaryOp, u32, u32, Span)> {
    if (i as int) < p.execution.instructions@.len() {
        let ins = p.execution.instructions@[i as int];
        let w = ins.words@;
        if ins.tag == FullTag::ExprBinary && w.len() == 6 && binary_op_of(w[0]) is Some && w[1] < i && w[2] < i
            && is_strict(binary_op_of(w[0])->0) {
            Some((binary_op_of(w[0])->0, w[1], w[2], span_of(w.skip(3))))
        } else {
            None
        }
    } else {
        None
    }
}

/// A malformed work stack, which a run never reaches.
pub open spec fn stack_error(message: Seq<char>, span: Span) -> ErrorModel {
    err_model("indexed-ir"@, message, Some(span))
}

/// Running the work stack `work` (its next item last) over the value stack
/// `vals`: operands are evaluated by the expression semantics, operators
/// applied to the two values on top; at the end exactly one value is left.
pub open spec fn binary_stack_run(
    p: FullProgram, b: nat, work: Seq<BinaryWork>, vals: Seq<ValueModel>, m: Machine, cs: Span, span: Span,
) -> Result<(Flow, Machine), ErrorModel>
    decreases work.len(),
{
    if work.len() == 0 {
        if vals.len() == 1 {
            Ok((Flow::Next(vals[0]), m))
        } else if vals.len() == 0 {
            Err(stack_error("binary expression produced no value"@, span))
        } else {
            Err(stack_error("binary expression left extra values on its work stack"@, span))
        }
    } else {
        match work.last() {
            BinaryWork::Expr(i) => match ev_expr(p, b, i, m, cs) {
                Err(e) => Err(e),
                Ok((Flow::Exit(v), m1)) => Ok((Flow::Exit(v), m1)),
                Ok((Flow::Next(v), m1)) => binary_stack_run(p, b, work.drop_last(), vals.push(v), m1, cs, span),
            },
            BinaryWork::Apply { op, span: s } => if vals.len() == 0 {
                Err(stack_error("binary expression is missing a right value"@, s))
            } else if vals.len() == 1 {
                Err(stack_error("binary expression is missing a left value"@, s))
            } else {
                match binary_value(op, vals[vals.len() - 2], vals.last(), s) {
                    Err(e) => Err(e),
                    Ok(v) => binary_stack_run(p, b, work.drop_last(), vals.drop_last().drop_last().push(v), m, cs, span),
                }
            },
        }
    }
}

/// The stack a binary expression starts from: its left operand on top.
pub open spec fn initial_work(op: BinaryOp, left: u32, right: u32, span: Span) -> Seq<BinaryWork> {
    Seq::empty().push(BinaryWork::Apply { op, span }).push(BinaryWork::Expr(right)).push(BinaryWork::Expr(left))
}

/// What the stack evaluation of `left op right` gives.
pub open spec fn binary_stack_value(
    p: FullProgram, b: nat, op: BinaryOp, left: u32, right: u32, span: Span, m: Machine, cs: Span,
) -> Result<(Flow, Machine), ErrorModel> {
    binary_stack_run(p, b, initial_work(op, left, right, span), Seq::empty(), m, cs, span)
}

/// Four to the power `i`: the weight of an operand at instruction `i`,
/// which outweighs the operator and the two smaller operands it splits into.
pub open spec fn pow4(i: nat) -> nat
    decreases i,
{
    if i == 0 { 1 } else { 4 * pow4((i - 1) as nat) }
}

/// The weight of a work item.
pub open spec fn item_weight(w: BinaryWork) -> nat {
    match w {
        BinaryWork::Expr(i) => pow4(i as nat),
        BinaryWork::Apply { .. } => 1,
    }
}

/// The weight of a work stack, which every step lowers.
pub open spec fn work_weight(w: Seq<BinaryWork>) -> nat
    decreases w.len(),
{
    if w.len() == 0 { 0 } else { work_weight(w.drop_last()) + item_weight(w.last()) }
}

proof fn lemma_pow4_pos(c: nat)
    ensures
        1 <= pow4(c),
    decreases c,
{
    if c > 0 {
        lemma_pow4_pos((c - 1) as nat);
    }
}

proof fn lemma_pow4_mono(a: nat, c: nat)
    requires
        a <= c,
    ensures
        1 <= pow4(a) <= pow4(c),
    decreases c,
{
    lemma_pow4_pos(a);
    if a < c {
        lemma_pow4_mono(a, (c - 1) as nat);
    }
}

/// Popping an item off a stack lowers its weight by the item's weight.
proof fn lemma_pop_weight(w: Seq<BinaryWork>)
    requires
        w.len() > 0,
    ensures
        work_weight(w) == work_weight(w.drop_last()) + item_weight(w.last()),
        item_weight(w.last()) >= 1,
{
    match w.last() {
        BinaryWork::Expr(i) => lemma_pow4_pos(i as nat),
        BinaryWork::Apply { .. } => {},
    }
}

/// Taking a strict binary operand apart lowers the weight.
proof fn lemma_expand_weight(w: Seq<BinaryWork>, i: u32, op: BinaryOp, l: u32, r: u32, s: Span)
    requires
        l < i,
        r < i,
    ensures
        work_weight(w.push(BinaryWork::Apply { op, span: s }).push(BinaryWork::Expr(r)).push(BinaryWork::Expr(l)))
            < work_weight(w.push(BinaryWork::Expr(i))),
{
    let w1 = w.push(BinaryWork::Apply { op, span: s });
    let w2 = w1.push(BinaryWork::Expr(r));
    let w3 = w2.push(BinaryWork::Expr(l));
    assert(w3.drop_last() =~= w2);
    assert(w2.drop_last() =~= w1);
    assert(w1.drop_last() =~= w);
    assert(w.push(BinaryWork::Expr(i)).drop_last() =~= w);
    lemma_pow4_mono(l as nat, (i - 1) as nat);
    lemma_pow4_mono(r as nat, (i - 1) as nat);
    assert(pow4(i as nat) == 4 * pow4((i - 1) as nat));
    lemma_pop_weight(w3);
    lemma_pop_weight(w2);
    lemma_pop_weight(w1);
    lemma_pop_weight(w.push(BinaryWork::Expr(i)));
}

/// Taking a strict binary operand apart does not change what the stack
/// gives: its operator and operands take its place.
proof fn lemma_expand_run(
    p: FullProgram, b: nat, w: Seq<BinaryWork>, vals: Seq<ValueModel>, m: Machine, cs: Span, span: Span, i: u32,
)
    requires
        strict_binary_at(p, i) is Some,
    ensures
        ({
            let (op, l, r, s) = strict_binary_at(p, i)->0;
            binary_stack_run(p, b, w.push(BinaryWork::Expr(i)), vals, m, cs, span)
                == binary_stack_run(p, b,
                    w.push(BinaryWork::Apply { op, span: s }).push(BinaryWork::Expr(r)).push(BinaryWork::Expr(l)),
                    vals, m, cs, span)
        }),
{
    let (op, l, r, s) = strict_binary_at(p, i)->0;
    let w1 = w.push(BinaryWork::Apply { op, span: s });
    let w2 = w1.push(BinaryWork::Expr(r));
    let w3 = w2.push(BinaryWork::Expr(l));
    assert(w3.drop_last() =~= w2);
    assert(w2.drop_last() =~= w1);
    assert(w1.drop_last() =~= w);
    assert(w.push(BinaryWork::Expr(i)).drop_last() =~= w);
    assert(ev_expr(p, b, i, m, cs) == ev_binary(p, b, i, op, l, r, s, m, cs));
    match ev_expr(p, b, l, m, cs) {
        Err(e) => {},
        Ok((Flow::Exit(v), m1)) => {},
        Ok((Flow::Next(lv), m1)) => {
            match ev_expr(p, b, r, m1, cs) {
                Err(e) => {},
                Ok((Flow::Exit(v), m2)) => {},
                Ok((Flow::Next(rv), m2)) => {
                    let vs = vals.push(lv).push(rv);
                    assert(vs[vs.len() - 2] == lv);
                    assert(vs.last() == rv);
                    assert(binary_stack_run(p, b, w3, vals, m, cs, span)
                        == binary_stack_run(p, b, w2, vals.push(lv), m1, cs, span));
                    assert(binary_stack_run(p, b, w2, vals.push(lv), m1, cs, span)
                        == binary_stack_run(p, b, w1, vs, m2, cs, span));
                    match binary_value(op, lv, rv, s) {
                        Err(e) => {},
                        Ok(v) => {
                            assert(vs.drop_last().drop_last().push(v) =~= vals.push(v));
                        },
                    }
                },
            }
        },
    }
}

/// For a strict operator, evaluating `left op right` on the work stack
/// gives exactly what the recursive evaluation of the binary expression at
/// `id` gives, whose operands come before it: the same value or exit, the
/// same error, the same effects on the slots and the yielded items.
pub proof fn lemma_binary_stack_matches_recursion(
    p: FullProgram, b: nat, id: u32, op: BinaryOp, left: u32, right: u32, span: Span, m: Machine, cs: Span,
)
    requires
        is_strict(op),
        left < id,
        right < id,
    ensures
        binary_stack_value(p, b, op, left, right, span, m, cs) == ev_binary(p, b, id, op, left, right, span, m, cs),
{
    let w0 = initial_work(op, left, right, span);
    let w2 = Seq::<BinaryWork>::empty().push(BinaryWork::Apply { op, span });
    let w1 = w2.push(BinaryWork::Expr(right));
    assert(w0.drop_last() =~= w1);
    assert(w1.drop_last() =~= w2);
    assert(w2.drop_last() =~= Seq::<BinaryWork>::empty());
    match ev_expr(p, b, left, m, cs) {
        Err(e) => {},
        Ok((Flow::Exit(v), m1)) => {},
        Ok((Flow::Next(lv), m1)) => {
            assert(Seq::<ValueModel>::empty().push(lv) =~= seq![lv]);
            assert(binary_stack_run(p, b, w0, Seq::empty(), m, cs, span)
                == binary_stack_run(p, b, w1, seq![lv], m1, cs, span));
            match ev_expr(p, b, right, m1, cs) {
                Err(e) => {},
                Ok((Flow::Exit(v), m2)) => {},
                Ok((Flow::Next(rv), m2)) => {
                    let vs = seq![lv].push(rv);
                    assert(vs[vs.len() - 2] == lv);
                    assert(vs.last() == rv);
                    assert(binary_stack_run(p, b, w1, seq![lv], m1, cs, span)
                        == binary_stack_run(p, b, w2, vs, m2, cs, span));
                    match binary_value(op, lv, rv, span) {
                        Err(e) => {},
                        Ok(v) => {
                            assert(vs.drop_last().drop_last().push(v) =~= seq![v]);
                            assert(binary_stack_run(p, b, w2, vs, m2, cs, span)
                                == binary_stack_run(p, b, Seq::empty(), seq![v], m2, cs, span));
                            assert(binary_stack_run(p, b, Seq::empty(), seq![v], m2, cs, span) == Ok::<(Flow, Machine), ErrorModel>((Flow::Next(v), m2)));
                        },
                    }
                },
            }
        },
    }
}

/// The parts of instruction `i` when it is a strict binary expression.
fn strict_binary_parts(program: &FullProgram, i: u32) -> (r: Option<(BinaryOp, u32, u32, Span)>)
    ensures
        r == strict_binary_at(*program, i),
{
    let (tag, w) = match instruction_at(program, i) {
        Some(x) => x,
        None => return None,
    };
    if tag != FullTag::ExprBinary || w.len() != 6 || w[1] >= i || w[2] >= i {
        return None;
    }
    let op = match binary_op_from(w[0]) {
        Some(op) => op,
        None => return None,
    };
    if op == BinaryOp::And || op == BinaryOp::Or {
        return None;
    }
    Some((op, w[1], w[2], span_at(w, 3)))
}

/// A malformed work stack, raised at `span`.
fn stack_runtime_error(message: &str, span: Span) -> (e: RuntimeError)
    ensures
        e@ == stack_error(message@, span),
{
    RuntimeError::new("indexed-ir", message).with_span(span)
}

impl Evaluator {
    /// Evaluates `left op right` on an explicit work stack: operands that are
    /// strict binary expressions themselves are taken apart onto the stack,
    /// any other operand is evaluated as a whole; `&&` and `||` keep their
    /// short-circuit evaluation that way.
    pub fn eval_indexed_binary_stack(
        &mut self,
        program: &FullProgram,
        budget: u32,
        op: BinaryOp,
        left: u32,
        right: u32,
        span: Span,
        slots: &mut Vec<Value>,
        call_span: Span,
    ) -> (r: Result<IndexedFlow, RuntimeError>)
        requires
            cache_valid(old(self).indexed_function_cache@, *program),
        ensures
            kept(*old(self), *final(self), *program),
            flow_outcome(r, binary_stack_value(*program, budget as nat, op, left, right, span,
                machine_of(old(slots)@, old(self).stream_items@), call_span), final(slots)@, final(self).stream_items@),
    {
        let mut work: Vec<BinaryWork> = Vec::new();
        work.push(BinaryWork::Apply { op, span });
        work.push(BinaryWork::Expr(right));
        work.push(BinaryWork::Expr(left));
        assert(work@ =~= initial_work(op, left, right, span));
        let mut values: Vec<Value> = Vec::new();
        assert(model_list(values@) =~= Seq::<ValueModel>::empty());
        let ghost start = binary_stack_value(*program, budget as nat, op, left, right, span,
            machine_of(slots@, self.stream_items@), call_span);
        while work.len() > 0
            invariant
                kept(*old(self), *self, *program),
                start == binary_stack_value(*program, budget as nat, op, left, right, span,
                    machine_of(old(slots)@, old(self).stream_items@), call_span),
                start == binary_stack_run(*program, budget as nat, work@, model_list(values@),
                    machine_of(slots@, self.stream_items@), call_span, span),
            decreases work_weight(work@),
        {
            let ghost before = work@;
            let item = work.pop().unwrap();
            assert(work@ == before.drop_last() && item == before.last());
            proof { lemma_pop_weight(before); }
            match item {
                BinaryWork::Apply { op, span: s } => {
                    let ghost vs = model_list(values@);
                    let rv = match values.pop() {
                        Some(v) => v,
                        None => return Err(stack_runtime_error("binary expression is missing a right value", s)),
                    };
                    let lv = match values.pop() {
                        Some(v) => v,
                        None => return Err(stack_runtime_error("binary expression is missing a left value", s)),
                    };
                    assert(lv@ == vs[vs.len() - 2] && rv@ == vs.last());
                    let v = apply_binary(op, lv, rv, s)?;
                    values.push(v);
                    assert(model_list(values@) =~= vs.drop_last().drop_last().push(v@));
                },
                BinaryWork::Expr(i) => {
                    match strict_binary_parts(program, i) {
                        Some((op2, l2, r2, s2)) => {
                            proof {
                                lemma_expand_run(*program, budget as nat, work@, model_list(values@),
                                    machine_of(slots@, self.stream_items@), call_span, span, i);
                                lemma_expand_weight(work@, i, op2, l2, r2, s2);
                                assert(before =~= work@.push(BinaryWork::Expr(i)));
                            }
                            work.push(BinaryWork::Apply { op: op2, span: s2 });
                            work.push(BinaryWork::Expr(r2));
                            work.push(BinaryWork::Expr(l2));
                        },
                        None => {
                            match self.eval_indexed_expr(program, budget, i, slots, call_span)? {
                                IndexedFlow::Continue(v) => {
                                    let ghost vs = model_list(values@);
                                    values.push(v);
                                    assert(model_list(values@) =~= vs.push(v@));
                                },
                                IndexedFlow::Break(v) => return Ok(IndexedFlow::Break(v)),
                            }
                        },
                    }
                },
            }
        }
        if values.len() == 1 {
            let v = values.pop().unwrap();
            Ok(IndexedFlow::Continue(v))
        } else if values.len() == 0 {
            Err(stack_runtime_error("binary expression produced no value", span))
        } else {
            Err(stack_runtime_error("binary expression left extra values on its work stack", span))
        }
    }
}

} // verus!
