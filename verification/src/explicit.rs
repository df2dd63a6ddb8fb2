//! Statements run on an explicit work stack rather than by recursion: a
//! frame's pending blocks, loops and block ends are heap values, so a body
//! can stop at a `yield` and be resumed later. Each step does one unit of
//! work; what is left on the stack always means exactly what the recursive
//! statement semantics would still do, which is proved here step by step.
use vstd::prelude::*;
use vstd::string::*;
use crate::value::{Value, ValueModel, Span, RuntimeError, ErrorModel, err_model, spec_type_name, model_list, clone_value};
use crate::evaluator::{Evaluator, cache_valid};
use crate::interp::{
    machine_of, kept, fault_error, type_error_at, instruction_at, statement_block_words, frame_condition_bool, IndexedFlow,
    StmtFlow,
};
use crate::ir::{FullProgram, FullTag};
use crate::semantics::{
    Machine, Flow, StmtEnd, set_slot, ev_expr, ev_stmt, ev_stmts, ev_for, ev_defers, condition_of, expected_bool,
    type_error, fault, named_call, yield_error,
};
use crate::blocks::statement_block_of;
use crate::frames::{FrameWork, WorkModel, work_view, StmtCont, StatementContinuation};
use crate::continuation::{
    ExprWorkModel, ExprStepModel, step_expr, sem_expr_work, start_expr, ExprWork, ExprStep, FrameContinuation, expr_work_model,
    ContModel, cont_model,
};

verus! {

/// What one step leaves: more work, a body stopped at a `yield` (its item
/// appended to the machine's yielded items), the flow the frame ended
/// with, or a call to make.
pub enum StepModel {
    Running(Seq<WorkModel>, Machine),
    Suspended(Seq<WorkModel>, Machine),
    Finished(StmtEnd, Machine),
    /// The statement's expression calls the function `name` names with
    /// `args`; its value goes to `next`, then the statement goes on with
    /// `then`, above `rest`.
    Calling { name: u32, args: Seq<ValueModel>, span: Span, next: ContModel, after: StmtCont, rest: Seq<WorkModel>, m: Machine },
}

/// The block of statement `s` that `w` holds at `i`, once checked.
pub open spec fn block_at(p: FullProgram, w: Seq<u32>, i: int) -> Seq<u32> {
    statement_block_of(&p.execution, w[i])->0
}

/// Whether the words of an `if` statement at `s` are well formed.
pub open spec fn if_ok(p: FullProgram, s: u32, w: Seq<u32>) -> bool {
    (w.len() == 3 && w[2] == 0 || w.len() == 4 && w[2] == 1) && w[0] < s
        && statement_block_of(&p.execution, w[1]) is Some
        && (w.len() == 4 ==> statement_block_of(&p.execution, w[3]) is Some)
}

/// What a statement does once its expression has ended with `f`: a
/// propagation leaves the statement; a value is stored, dropped, returned,
/// yielded, taken as a condition or looped over.
pub open spec fn stmt_after(p: FullProgram, b: nat, sc: StmtCont, f: Flow, m: Machine, cs: Span, y: bool) -> Result<(StmtEnd, Machine), ErrorModel> {
    match f {
        Flow::Exit(v) => match sc {
            StmtCont::Return => Ok((StmtEnd::Return(v), m)),
            StmtCont::Yield => Ok((StmtEnd::Done, Machine { slots: m.slots, yielded: m.yielded.push(v) })),
            _ => Ok((StmtEnd::Propagate(v), m)),
        },
        Flow::Next(v) => match sc {
            StmtCont::Store(slot) => if slot < m.slots.len() {
                Ok((StmtEnd::Done, set_slot(m, slot as int, v)))
            } else {
                Err(fault(cs))
            },
            StmtCont::Discard => Ok((StmtEnd::Done, m)),
            StmtCont::Return => Ok((StmtEnd::Return(v), m)),
            StmtCont::Yield => Ok((StmtEnd::Done, Machine { slots: m.slots, yielded: m.yielded.push(v) })),
            StmtCont::If { s, then_block, else_block } => match condition_of(v) {
                None => Err(expected_bool(cs)),
                Some(true) => ev_stmts(p, b, s as nat, then_block, 0, Seq::empty(), m, cs, y),
                Some(false) => match else_block {
                    Some(eb) => ev_stmts(p, b, s as nat, eb, 0, Seq::empty(), m, cs, y),
                    None => Ok((StmtEnd::Done, m)),
                },
            },
            StmtCont::For { s, slot, body } => match v {
                ValueModel::List(items) => ev_for(p, b, s, slot, body, items, 0, m, cs, y),
                _ => Err(type_error("for expected List, found "@ + spec_type_name(v), cs)),
            },
        },
    }
}

/// The statement continuation of statement `s` with words `w`, and the
/// expression it evaluates, when the statement evaluates one.
pub open spec fn stmt_expr(p: FullProgram, s: u32, tag: FullTag, w: Seq<u32>) -> Option<(u32, StmtCont)> {
    match tag {
        FullTag::StmtLet => if w.len() == 2 && w[1] < s { Some((w[1], StmtCont::Store(w[0] as nat))) } else { None },
        FullTag::StmtExpr => if w.len() == 1 && w[0] < s { Some((w[0], StmtCont::Discard)) } else { None },
        FullTag::StmtReturn => if w.len() == 1 && w[0] < s { Some((w[0], StmtCont::Return)) } else { None },
        FullTag::StmtYield => if w.len() == 1 && w[0] < s { Some((w[0], StmtCont::Yield)) } else { None },
        FullTag::StmtIf => if if_ok(p, s, w) {
            Some((w[0], StmtCont::If {
                s,
                then_block: block_at(p, w, 1),
                else_block: if w.len() == 4 { Some(block_at(p, w, 3)) } else { None },
            }))
        } else {
            None
        },
        FullTag::StmtFor => if w.len() == 3 && w[1] < s && statement_block_of(&p.execution, w[2]) is Some {
            Some((w[1], StmtCont::For { s, slot: w[0] as nat, body: block_at(p, w, 2) }))
        } else {
            None
        },
        _ => None,
    }
}

/// One step of a block at statement `k`, the rest of the stack being `rest`:
/// a statement with an expression starts it on the continuation machine;
/// a `defer` registers its expression; `break` and `continue` end the block.
pub open spec fn step_block(
    p: FullProgram, b: nat, rest: Seq<WorkModel>, ss: Seq<u32>, k: nat, defers: Seq<u32>, bound: nat, m: Machine, cs: Span,
    y: bool,
) -> Result<StepModel, ErrorModel> {
    if k >= ss.len() {
        match ev_defers(p, b, bound, defers, defers.len(), m, cs) {
            Err(e) => Err(e),
            Ok(m1) => Ok(StepModel::Running(rest.push(WorkModel::Finish(StmtEnd::Done)), m1)),
        }
    } else {
        let s = ss[k as int];
        let next = WorkModel::Block { ss, k: k + 1, defers, bound };
        if s as nat >= bound || s as int >= p.execution.instructions@.len() {
            Err(fault(cs))
        } else {
            let ins = p.execution.instructions@[s as int];
            let w = ins.words@;
            if ins.tag == FullTag::StmtDefer {
                if w.len() == 1 && w[0] < s {
                    Ok(StepModel::Running(rest.push(WorkModel::Block { ss, k: k + 1, defers: defers.push(w[0]), bound }), m))
                } else {
                    Err(fault(cs))
                }
            } else if ins.tag == FullTag::StmtYield && !y {
                if w.len() == 1 && w[0] < s { Err(yield_error(cs)) } else { Err(fault(cs)) }
            } else {
                match stmt_expr(p, s, ins.tag, w) {
                    Some((e, sc)) => Ok(StepModel::Running(rest.push(next).push(WorkModel::Eval { work: start_expr(e), after: sc }), m)),
                    None => match ev_stmt(p, b, s, m, cs, y) {
                        Err(e) => Err(e),
                        Ok((StmtEnd::Done, m1)) => Ok(StepModel::Running(rest.push(next), m1)),
                        Ok((end, m1)) => Ok(StepModel::Running(rest.push(next).push(WorkModel::Finish(end)), m1)),
                    },
                }
            }
        }
    }
}

/// One step of a statement's expression: a step of the continuation
/// machine, and once the expression ends, what the statement does with it.
pub open spec fn step_eval_unit(
    p: FullProgram, b: nat, rest: Seq<WorkModel>, ew: ExprWorkModel, sc: StmtCont, m: Machine, cs: Span,
    y: bool,
) -> Result<StepModel, ErrorModel> {
    match step_expr(p, b, ew, m, cs) {
        Err(e) => Err(e),
        Ok(ExprStepModel::Running(ew2, m2)) => Ok(StepModel::Running(rest.push(WorkModel::Eval { work: ew2, after: sc }), m2)),
        Ok(ExprStepModel::Calling { name, args, span, next, m: m2 }) =>
            Ok(StepModel::Calling { name, args, span, next, after: sc, rest, m: m2 }),
        Ok(ExprStepModel::Finished(Flow::Exit(v), m2)) => match sc {
            StmtCont::Return => Ok(StepModel::Running(rest.push(WorkModel::Finish(StmtEnd::Return(v))), m2)),
            StmtCont::Yield => Ok(StepModel::Suspended(rest.push(WorkModel::Finish(StmtEnd::Done)),
                Machine { slots: m2.slots, yielded: m2.yielded.push(v) })),
            _ => Ok(StepModel::Running(rest.push(WorkModel::Finish(StmtEnd::Propagate(v))), m2)),
        },
        Ok(ExprStepModel::Finished(Flow::Next(v), m2)) => match sc {
            StmtCont::Store(slot) => if slot < m2.slots.len() {
                Ok(StepModel::Running(rest.push(WorkModel::Finish(StmtEnd::Done)), set_slot(m2, slot as int, v)))
            } else {
                Err(fault(cs))
            },
            StmtCont::Discard => Ok(StepModel::Running(rest.push(WorkModel::Finish(StmtEnd::Done)), m2)),
            StmtCont::Return => Ok(StepModel::Running(rest.push(WorkModel::Finish(StmtEnd::Return(v))), m2)),
            StmtCont::Yield => Ok(StepModel::Suspended(rest.push(WorkModel::Finish(StmtEnd::Done)),
                Machine { slots: m2.slots, yielded: m2.yielded.push(v) })),
            StmtCont::If { s, then_block, else_block } => match condition_of(v) {
                None => Err(expected_bool(cs)),
                Some(true) => Ok(StepModel::Running(rest.push(
                    WorkModel::Block { ss: then_block, k: 0, defers: Seq::empty(), bound: s as nat }), m2)),
                Some(false) => match else_block {
                    Some(eb) => Ok(StepModel::Running(rest.push(
                        WorkModel::Block { ss: eb, k: 0, defers: Seq::empty(), bound: s as nat }), m2)),
                    None => Ok(StepModel::Running(rest.push(WorkModel::Finish(StmtEnd::Done)), m2)),
                },
            },
            StmtCont::For { s, slot, body } => match v {
                ValueModel::List(items) => Ok(StepModel::Running(rest.push(WorkModel::Loop { s, slot, body, items, k: 0 }), m2)),
                _ => Err(type_error("for expected List, found "@ + spec_type_name(v), cs)),
            },
        },
    }
}

/// One step of a loop at item `k`: the item goes into the slot and the body
/// block is pushed above the loop.
pub open spec fn step_loop(
    rest: Seq<WorkModel>, s: u32, slot: nat, body: Seq<u32>, items: Seq<ValueModel>, k: nat, m: Machine, cs: Span,
    y: bool,
) -> Result<StepModel, ErrorModel> {
    if k >= items.len() {
        Ok(StepModel::Running(rest.push(WorkModel::Finish(StmtEnd::Done)), m))
    } else if slot >= m.slots.len() {
        Err(fault(cs))
    } else {
        Ok(StepModel::Running(
            rest.push(WorkModel::Loop { s, slot, body, items, k: k + 1 })
                .push(WorkModel::Block { ss: body, k: 0, defers: Seq::empty(), bound: s as nat }),
            set_slot(m, slot as int, items[k as int])))
    }
}

/// One step handing the flow `e` a block or loop ended with to the unit
/// below: a block goes on after a normal end, and otherwise runs its
/// defers and ends the same way; a loop goes on after a normal end or a
/// `continue`, ends normally after a `break`, and otherwise ends the same
/// way.
pub open spec fn step_finish(p: FullProgram, b: nat, rest: Seq<WorkModel>, e: StmtEnd, m: Machine, cs: Span, y: bool) -> Result<StepModel, ErrorModel> {
    if rest.len() == 0 {
        Ok(StepModel::Finished(e, m))
    } else {
        match rest.last() {
            WorkModel::Block { defers, bound, .. } => if e is Done {
                Ok(StepModel::Running(rest, m))
            } else {
                match ev_defers(p, b, bound, defers, defers.len(), m, cs) {
                    Err(x) => Err(x),
                    Ok(m1) => Ok(StepModel::Running(rest.drop_last().push(WorkModel::Finish(e)), m1)),
                }
            },
            WorkModel::Loop { .. } => match e {
                StmtEnd::Done => Ok(StepModel::Running(rest, m)),
                StmtEnd::Continue => Ok(StepModel::Running(rest, m)),
                StmtEnd::Break => Ok(StepModel::Running(rest.drop_last().push(WorkModel::Finish(StmtEnd::Done)), m)),
                _ => Ok(StepModel::Running(rest.drop_last().push(WorkModel::Finish(e)), m)),
            },
            WorkModel::Finish(_) => Err(fault(cs)),
            WorkModel::Eval { .. } => Err(fault(cs)),
        }
    }
}

/// One step of the work stack `work`, its next unit last.
pub open spec fn step(p: FullProgram, b: nat, work: Seq<WorkModel>, m: Machine, cs: Span, y: bool) -> Result<StepModel, ErrorModel> {
    if work.len() == 0 {
        Ok(StepModel::Finished(StmtEnd::Done, m))
    } else {
        match work.last() {
            WorkModel::Block { ss, k, defers, bound } => step_block(p, b, work.drop_last(), ss, k, defers, bound, m, cs, y),
            WorkModel::Loop { s, slot, body, items, k } => step_loop(work.drop_last(), s, slot, body, items, k, m, cs, y),
            WorkModel::Finish(e) => step_finish(p, b, work.drop_last(), e, m, cs, y),
            WorkModel::Eval { work: ew, after } => step_eval_unit(p, b, work.drop_last(), ew, after, m, cs, y),
        }
    }
}

/// What a unit of work means on its own: the rest of a block, the rest of
/// a loop, or a flow already reached.
pub open spec fn sem_unit(p: FullProgram, b: nat, u: WorkModel, m: Machine, cs: Span, y: bool) -> Result<(StmtEnd, Machine), ErrorModel> {
    match u {
        WorkModel::Block { ss, k, defers, bound } => ev_stmts(p, b, bound, ss, k, defers, m, cs, y),
        WorkModel::Loop { s, slot, body, items, k } => ev_for(p, b, s, slot, body, items, k, m, cs, y),
        WorkModel::Finish(e) => Ok((e, m)),
        WorkModel::Eval { work, after } => match sem_expr_work(p, b, work, m, cs) {
            Err(e) => Err(e),
            Ok((f, m1)) => stmt_after(p, b, after, f, m1, cs, y),
        },
    }
}

/// What the units `rest` make of the flow `e` the unit above them ended
/// with.
pub open spec fn sem_deliver(p: FullProgram, b: nat, rest: Seq<WorkModel>, e: StmtEnd, m: Machine, cs: Span, y: bool)
    -> Result<(StmtEnd, Machine), ErrorModel>
    decreases rest.len(), 2nat,
{
    if rest.len() == 0 {
        Ok((e, m))
    } else {
        match rest.last() {
            WorkModel::Block { defers, bound, .. } => if e is Done {
                sem_work(p, b, rest, m, cs, y)
            } else {
                match ev_defers(p, b, bound, defers, defers.len(), m, cs) {
                    Err(x) => Err(x),
                    Ok(m1) => sem_deliver(p, b, rest.drop_last(), e, m1, cs, y),
                }
            },
            WorkModel::Loop { .. } => match e {
                StmtEnd::Done => sem_work(p, b, rest, m, cs, y),
                StmtEnd::Continue => sem_work(p, b, rest, m, cs, y),
                StmtEnd::Break => sem_deliver(p, b, rest.drop_last(), StmtEnd::Done, m, cs, y),
                _ => sem_deliver(p, b, rest.drop_last(), e, m, cs, y),
            },
            WorkModel::Finish(_) => Err(fault(cs)),
            WorkModel::Eval { .. } => Err(fault(cs)),
        }
    }
}

/// What a whole work stack means: the flow the frame ends with and the
/// machine then, with every item it will still yield appended.
pub open spec fn sem_work(p: FullProgram, b: nat, work: Seq<WorkModel>, m: Machine, cs: Span, y: bool)
    -> Result<(StmtEnd, Machine), ErrorModel>
    decreases work.len(), 1nat,
{
    if work.len() == 0 {
        Ok((StmtEnd::Done, m))
    } else {
        match sem_unit(p, b, work.last(), m, cs, y) {
            Err(e) => Err(e),
            Ok((e, m1)) => sem_deliver(p, b, work.drop_last(), e, m1, cs, y),
        }
    }
}

/// A step agrees with the meaning of the stack it is taken on.
pub open spec fn step_keeps(p: FullProgram, b: nat, work: Seq<WorkModel>, m: Machine, cs: Span, r: Result<StepModel, ErrorModel>, y: bool) -> bool {
    match r {
        Err(e) => sem_work(p, b, work, m, cs, y) == Err::<(StmtEnd, Machine), ErrorModel>(e),
        Ok(StepModel::Running(w2, m2)) => sem_work(p, b, work, m, cs, y) == sem_work(p, b, w2, m2, cs, y),
        Ok(StepModel::Suspended(w2, m2)) => sem_work(p, b, work, m, cs, y) == sem_work(p, b, w2, m2, cs, y),
        Ok(StepModel::Finished(e, m2)) => sem_work(p, b, work, m, cs, y) == Ok::<(StmtEnd, Machine), ErrorModel>((e, m2)),
        Ok(StepModel::Calling { name, args, span, next, after, rest, m: m2 }) =>
            sem_work(p, b, work, m, cs, y) == match named_call(p, b, name, args, span) {
                Err(e) => Err(e),
                Ok(r) => sem_work(p, b, rest.push(WorkModel::Eval { work: ExprWorkModel::Deliver { value: r, next }, after }), m2, cs, y),
            },
    }
}

proof fn lemma_push_last(rest: Seq<WorkModel>, u: WorkModel)
    ensures
        rest.push(u).last() == u,
        rest.push(u).drop_last() == rest,
        rest.push(u).len() == rest.len() + 1,
{
    assert(rest.push(u).drop_last() =~= rest);
}

/// A statement that evaluates expression `e` and then does `sc` means the
/// same as running it at once.
proof fn lemma_stmt_unit(
    p: FullProgram, b: nat, rest: Seq<WorkModel>, ss: Seq<u32>, k: nat, defers: Seq<u32>, bound: nat, m: Machine, cs: Span,
    e: u32, sc: StmtCont,
    y: bool,
)
    requires
        k < ss.len(),
        (ss[k as int] as nat) < bound,
        (ss[k as int] as int) < p.execution.instructions@.len(),
        p.execution.instructions@[ss[k as int] as int].tag != FullTag::StmtDefer,
        ev_stmt(p, b, ss[k as int], m, cs, y) == match ev_expr(p, b, e, m, cs) {
            Err(x) => Err(x),
            Ok((f, m1)) => stmt_after(p, b, sc, f, m1, cs, y),
        },
    ensures
        sem_work(p, b, rest.push(WorkModel::Block { ss, k, defers, bound }), m, cs, y)
            == sem_work(p, b, rest.push(WorkModel::Block { ss, k: k + 1, defers, bound }).push(WorkModel::Eval { work: start_expr(e), after: sc }), m, cs, y),
{
    let top = WorkModel::Block { ss, k, defers, bound };
    let next = WorkModel::Block { ss, k: k + 1, defers, bound };
    let unit = WorkModel::Eval { work: start_expr(e), after: sc };
    lemma_push_last(rest, top);
    lemma_push_last(rest, next);
    lemma_push_last(rest.push(next), unit);
    crate::continuation::lemma_start_expr(p, b, e, m, cs);
    let s = ss[k as int];
    assert(sem_unit(p, b, unit, m, cs, y) == ev_stmt(p, b, s, m, cs, y));
    assert(sem_unit(p, b, top, m, cs, y) == ev_stmts(p, b, bound, ss, k, defers, m, cs, y));
    match ev_stmt(p, b, s, m, cs, y) {
        Err(x) => {},
        Ok((StmtEnd::Done, m1)) => {
            assert(ev_stmts(p, b, bound, ss, k, defers, m, cs, y) == ev_stmts(p, b, bound, ss, k + 1, defers, m1, cs, y));
            assert(sem_deliver(p, b, rest.push(next), StmtEnd::Done, m1, cs, y) == sem_work(p, b, rest.push(next), m1, cs, y));
        },
        Ok((end, m1)) => {
            assert(ev_stmts(p, b, bound, ss, k, defers, m, cs, y) == match ev_defers(p, b, bound, defers, defers.len(), m1, cs) {
                Err(x) => Err(x),
                Ok(m2) => Ok((end, m2)),
            });
        },
    }
}

proof fn lemma_step_block(
    p: FullProgram, b: nat, rest: Seq<WorkModel>, ss: Seq<u32>, k: nat, defers: Seq<u32>, bound: nat, m: Machine, cs: Span,
    y: bool,
)
    ensures
        step_keeps(p, b, rest.push(WorkModel::Block { ss, k, defers, bound }), m, cs,
            step_block(p, b, rest, ss, k, defers, bound, m, cs, y), y),
{
    let top = WorkModel::Block { ss, k, defers, bound };
    let work = rest.push(top);
    lemma_push_last(rest, top);
    if k >= ss.len() {
        match ev_defers(p, b, bound, defers, defers.len(), m, cs) {
            Err(e) => {},
            Ok(m1) => {
                lemma_push_last(rest, WorkModel::Finish(StmtEnd::Done));
            },
        }
    } else {
        let s = ss[k as int];
        let next = WorkModel::Block { ss, k: k + 1, defers, bound };
        lemma_push_last(rest, next);
        if s as nat >= bound || s as int >= p.execution.instructions@.len() {
        } else {
            let ins = p.execution.instructions@[s as int];
            let w = ins.words@;
            if ins.tag == FullTag::StmtDefer {
                lemma_push_last(rest, WorkModel::Block { ss, k: k + 1, defers: defers.push(w[0]), bound });
            } else if ins.tag == FullTag::StmtYield && !y {
                assert(sem_unit(p, b, top, m, cs, y) == ev_stmts(p, b, bound, ss, k, defers, m, cs, y));
                assert(ev_stmts(p, b, bound, ss, k, defers, m, cs, y)
                    == Err::<(StmtEnd, Machine), ErrorModel>(step_block(p, b, rest, ss, k, defers, bound, m, cs, y)->Err_0));
            } else {
                match stmt_expr(p, s, ins.tag, w) {
                    Some((e, sc)) => {
                        lemma_stmt_unit(p, b, rest, ss, k, defers, bound, m, cs, e, sc, y);
                    },
                    None => match ev_stmt(p, b, s, m, cs, y) {
                        Err(e) => {},
                        Ok((StmtEnd::Done, m1)) => {},
                        Ok((end, m1)) => {
                            lemma_push_last(rest.push(next), WorkModel::Finish(end));
                        },
                    },
                }
            }
        }
    }
}

proof fn lemma_step_eval_unit(p: FullProgram, b: nat, rest: Seq<WorkModel>, ew: ExprWorkModel, sc: StmtCont, m: Machine, cs: Span, y: bool)
    ensures
        step_keeps(p, b, rest.push(WorkModel::Eval { work: ew, after: sc }), m, cs, step_eval_unit(p, b, rest, ew, sc, m, cs, y), y),
{
    let top = WorkModel::Eval { work: ew, after: sc };
    lemma_push_last(rest, top);
    crate::continuation::lemma_expr_step_keeps_meaning(p, b, ew, m, cs);
    match step_expr(p, b, ew, m, cs) {
        Err(e) => {},
        Ok(ExprStepModel::Running(ew2, m2)) => {
            lemma_push_last(rest, WorkModel::Eval { work: ew2, after: sc });
        },
        Ok(ExprStepModel::Calling { name, args, span, next, m: m2 }) => {
            match named_call(p, b, name, args, span) {
                Err(e) => {},
                Ok(r) => {
                    lemma_push_last(rest, WorkModel::Eval { work: ExprWorkModel::Deliver { value: r, next }, after: sc });
                },
            }
        },
        Ok(ExprStepModel::Finished(Flow::Exit(v), m2)) => {
            lemma_push_last(rest, WorkModel::Finish(StmtEnd::Propagate(v)));
            lemma_push_last(rest, WorkModel::Finish(StmtEnd::Return(v)));
            lemma_push_last(rest, WorkModel::Finish(StmtEnd::Done));
        },
        Ok(ExprStepModel::Finished(Flow::Next(v), m2)) => {
            lemma_push_last(rest, WorkModel::Finish(StmtEnd::Done));
            lemma_push_last(rest, WorkModel::Finish(StmtEnd::Return(v)));
            match sc {
                StmtCont::If { s, then_block, else_block } => {
                    lemma_push_last(rest, WorkModel::Block { ss: then_block, k: 0, defers: Seq::empty(), bound: s as nat });
                    match else_block {
                        Some(eb) => {
                            lemma_push_last(rest, WorkModel::Block { ss: eb, k: 0, defers: Seq::empty(), bound: s as nat });
                        },
                        None => {},
                    }
                },
                StmtCont::For { s, slot, body } => match v {
                    ValueModel::List(items) => {
                        lemma_push_last(rest, WorkModel::Loop { s, slot, body, items, k: 0 });
                    },
                    _ => {},
                },
                _ => {},
            }
        },
    }
}

proof fn lemma_step_loop(
    p: FullProgram, b: nat, rest: Seq<WorkModel>, s: u32, slot: nat, body: Seq<u32>, items: Seq<ValueModel>, k: nat, m: Machine, cs: Span,
    y: bool,
)
    ensures
        step_keeps(p, b, rest.push(WorkModel::Loop { s, slot, body, items, k }), m, cs,
            step_loop(rest, s, slot, body, items, k, m, cs, y), y),
{
    let top = WorkModel::Loop { s, slot, body, items, k };
    lemma_push_last(rest, top);
    if k >= items.len() {
        lemma_push_last(rest, WorkModel::Finish(StmtEnd::Done));
    } else if slot >= m.slots.len() {
    } else {
        let l1 = WorkModel::Loop { s, slot, body, items, k: k + 1 };
        let blk = WorkModel::Block { ss: body, k: 0, defers: Seq::empty(), bound: s as nat };
        lemma_push_last(rest, l1);
        lemma_push_last(rest.push(l1), blk);
        let m0 = set_slot(m, slot as int, items[k as int]);
        let w2 = rest.push(l1).push(blk);
        assert(sem_work(p, b, w2, m0, cs, y) == match ev_stmts(p, b, s as nat, body, 0, Seq::empty(), m0, cs, y) {
            Err(x) => Err(x),
            Ok((e, m1)) => sem_deliver(p, b, rest.push(l1), e, m1, cs, y),
        });
        match ev_stmts(p, b, s as nat, body, 0, Seq::empty(), m0, cs, y) {
            Err(x) => {},
            Ok((e, m1)) => {
                assert(sem_work(p, b, rest.push(l1), m1, cs, y) == match ev_for(p, b, s, slot, body, items, k + 1, m1, cs, y) {
                    Err(x) => Err(x),
                    Ok((e2, m2)) => sem_deliver(p, b, rest, e2, m2, cs, y),
                });
            },
        }
    }
}

proof fn lemma_step_finish(p: FullProgram, b: nat, rest: Seq<WorkModel>, e: StmtEnd, m: Machine, cs: Span, y: bool)
    ensures
        step_keeps(p, b, rest.push(WorkModel::Finish(e)), m, cs, step_finish(p, b, rest, e, m, cs, y), y),
{
    lemma_push_last(rest, WorkModel::Finish(e));
    if rest.len() > 0 {
        match rest.last() {
            WorkModel::Block { defers, bound, .. } => {
                if !(e is Done) {
                    match ev_defers(p, b, bound, defers, defers.len(), m, cs) {
                        Err(x) => {},
                        Ok(m1) => {
                            lemma_push_last(rest.drop_last(), WorkModel::Finish(e));
                        },
                    }
                }
            },
            WorkModel::Loop { .. } => {
                lemma_push_last(rest.drop_last(), WorkModel::Finish(StmtEnd::Done));
                lemma_push_last(rest.drop_last(), WorkModel::Finish(e));
            },
            WorkModel::Finish(_) => {},
            WorkModel::Eval { .. } => {},
        }
    }
}

/// A step only calls a function whose name is a string of the program.
pub proof fn lemma_step_calling_name(p: FullProgram, b: nat, work: Seq<WorkModel>, m: Machine, cs: Span, y: bool)
    ensures
        step(p, b, work, m, cs, y) matches Ok(StepModel::Calling { name, .. }) ==> (name as int) < p.execution.strings@.len(),
{
    if work.len() > 0 {
        match work.last() {
            WorkModel::Eval { work: ew, after } => crate::continuation::lemma_calling_name(p, b, ew, m, cs),
            _ => {},
        }
    }
}

/// Each step keeps the meaning of the work stack: what is left means
/// exactly what the recursive semantics of the remaining blocks and loops
/// gives, a `yield` having appended its item to the machine; an error of a
/// step is the error of the whole; a finished stack is the whole's outcome.
pub proof fn lemma_step_keeps_meaning(p: FullProgram, b: nat, work: Seq<WorkModel>, m: Machine, cs: Span, y: bool)
    ensures
        step_keeps(p, b, work, m, cs, step(p, b, work, m, cs, y), y),
{
    if work.len() > 0 {
        let rest = work.drop_last();
        assert(work =~= rest.push(work.last()));
        match work.last() {
            WorkModel::Block { ss, k, defers, bound } => lemma_step_block(p, b, rest, ss, k, defers, bound, m, cs, y),
            WorkModel::Loop { s, slot, body, items, k } => lemma_step_loop(p, b, rest, s, slot, body, items, k, m, cs, y),
            WorkModel::Finish(e) => lemma_step_finish(p, b, rest, e, m, cs, y),
            WorkModel::Eval { work: ew, after } => lemma_step_eval_unit(p, b, rest, ew, after, m, cs, y),
        }
    }
}

} // verus!

verus! {

/// How a run of steps stopped: at a `yield`, with the frame's flow, or
/// with its step allowance used up.
pub enum RunModel {
    Suspended(Seq<WorkModel>, Machine),
    Finished(StmtEnd, Machine),
    OutOfSteps(Seq<WorkModel>, Machine),
}

/// Taking up to `fuel` steps: a producer stops at a `yield`; any other
/// frame goes on past it.
pub open spec fn run_steps(
    p: FullProgram, b: nat, work: Seq<WorkModel>, m: Machine, cs: Span, stop_at_yield: bool, fuel: nat,
    y: bool,
) -> Result<RunModel, ErrorModel>
    decreases fuel,
{
    if fuel == 0 {
        Ok(RunModel::OutOfSteps(work, m))
    } else {
        match step(p, b, work, m, cs, y) {
            Err(e) => Err(e),
            Ok(StepModel::Running(w2, m2)) => run_steps(p, b, w2, m2, cs, stop_at_yield, (fuel - 1) as nat, y),
            Ok(StepModel::Suspended(w2, m2)) => if stop_at_yield {
                Ok(RunModel::Suspended(w2, m2))
            } else {
                run_steps(p, b, w2, m2, cs, stop_at_yield, (fuel - 1) as nat, y)
            },
            Ok(StepModel::Finished(e, m2)) => Ok(RunModel::Finished(e, m2)),
            Ok(StepModel::Calling { name, args, span, next, after, rest, m: m2 }) => match named_call(p, b, name, args, span) {
                Err(e) => Err(e),
                Ok(r) => run_steps(p, b, rest.push(WorkModel::Eval { work: ExprWorkModel::Deliver { value: r, next }, after }), m2, cs,
                    stop_at_yield, (fuel - 1) as nat, y),
            },
        }
    }
}

/// A run of steps agrees with the meaning of the stack it starts from.
pub open spec fn run_keeps(p: FullProgram, b: nat, work: Seq<WorkModel>, m: Machine, cs: Span, r: Result<RunModel, ErrorModel>, y: bool) -> bool {
    match r {
        Err(e) => sem_work(p, b, work, m, cs, y) == Err::<(StmtEnd, Machine), ErrorModel>(e),
        Ok(RunModel::Suspended(w2, m2)) => sem_work(p, b, work, m, cs, y) == sem_work(p, b, w2, m2, cs, y),
        Ok(RunModel::OutOfSteps(w2, m2)) => sem_work(p, b, work, m, cs, y) == sem_work(p, b, w2, m2, cs, y),
        Ok(RunModel::Finished(e, m2)) => sem_work(p, b, work, m, cs, y) == Ok::<(StmtEnd, Machine), ErrorModel>((e, m2)),
    }
}

/// However many steps are taken, the stack keeps its meaning: a run that
/// finishes ends exactly as the recursive semantics of its blocks and loops
/// does, with the same machine and the same yielded items.
pub proof fn lemma_run_keeps_meaning(
    p: FullProgram, b: nat, work: Seq<WorkModel>, m: Machine, cs: Span, stop_at_yield: bool, fuel: nat,
    y: bool,
)
    ensures
        run_keeps(p, b, work, m, cs, run_steps(p, b, work, m, cs, stop_at_yield, fuel, y), y),
    decreases fuel,
{
    if fuel > 0 {
        lemma_step_keeps_meaning(p, b, work, m, cs, y);
        match step(p, b, work, m, cs, y) {
            Ok(StepModel::Running(w2, m2)) => lemma_run_keeps_meaning(p, b, w2, m2, cs, stop_at_yield, (fuel - 1) as nat, y),
            Ok(StepModel::Suspended(w2, m2)) => if !stop_at_yield {
                lemma_run_keeps_meaning(p, b, w2, m2, cs, stop_at_yield, (fuel - 1) as nat, y);
            },
            Ok(StepModel::Calling { name, args, span, next, after, rest, m: m2 }) => match named_call(p, b, name, args, span) {
                Err(e) => {},
                Ok(r) => lemma_run_keeps_meaning(p, b, rest.push(WorkModel::Eval { work: ExprWorkModel::Deliver { value: r, next }, after }),
                    m2, cs, stop_at_yield, (fuel - 1) as nat, y),
            },
            _ => {},
        }
    }
}

/// What a step did, as the executable frame reports it.
pub enum FrameStep {
    Running,
    Suspended,
    Finished(StmtFlow),
    Calling { name: u32, args: Vec<Value>, span: Span, next: FrameContinuation, after: StatementContinuation },
}

/// How a run of steps stopped.
pub enum FrameRun {
    Suspended,
    Finished(StmtFlow),
    OutOfSteps,
}

/// A step of the executable frame agrees with the step of its meaning.
pub open spec fn step_outcome(
    r: Result<FrameStep, RuntimeError>, s: Result<StepModel, ErrorModel>, work: Seq<FrameWork>, slots: Seq<Value>, yielded: Seq<Value>,
) -> bool {
    match s {
        Err(e) => r matches Err(x) && x@ == e,
        Ok(StepModel::Running(w, m)) => r matches Ok(FrameStep::Running) && work_view(work) == w && machine_of(slots, yielded) == m,
        Ok(StepModel::Suspended(w, m)) => r matches Ok(FrameStep::Suspended) && work_view(work) == w && machine_of(slots, yielded) == m,
        Ok(StepModel::Finished(e, m)) => r matches Ok(FrameStep::Finished(f)) && f@ == e && machine_of(slots, yielded) == m,
        Ok(StepModel::Calling { name, args, span, next, after, rest, m }) =>
            r matches Ok(FrameStep::Calling { name: n, args: a, span: sp, next: c, after: t })
            && n == name && model_list(a@) == args && sp == span && cont_model(c) == next && t@ == after
            && work_view(work) == rest && machine_of(slots, yielded) == m,
    }
}

/// A run of the executable frame agrees with the run of its meaning.
pub open spec fn run_outcome(
    r: Result<FrameRun, RuntimeError>, s: Result<RunModel, ErrorModel>, work: Seq<FrameWork>, slots: Seq<Value>, yielded: Seq<Value>,
) -> bool {
    match s {
        Err(e) => r matches Err(x) && x@ == e,
        Ok(RunModel::Suspended(w, m)) => r matches Ok(FrameRun::Suspended) && work_view(work) == w && machine_of(slots, yielded) == m,
        Ok(RunModel::OutOfSteps(w, m)) => r matches Ok(FrameRun::OutOfSteps) && work_view(work) == w && machine_of(slots, yielded) == m,
        Ok(RunModel::Finished(e, m)) => r matches Ok(FrameRun::Finished(f)) && f@ == e && machine_of(slots, yielded) == m,
    }
}

/// The statements of block `b`, when it is a statement block.
pub fn block_statements(program: &FullProgram, b: u32) -> (r: Option<Vec<u32>>)
    ensures
        match r {
            Some(v) => statement_block_of(&program.execution, b) == Some(v@),
            None => statement_block_of(&program.execution, b) is None,
        },
{
    let w = match statement_block_words(program, b) {
        Some(w) => w,
        None => return None,
    };
    let mut out: Vec<u32> = Vec::new();
    let mut i: usize = 1;
    while i < w.len()
        invariant
            1 <= i <= w@.len(),
            out@ == w@.subrange(1, i as int),
        decreases w@.len() - i,
    {
        out.push(w[i]);
        i = i + 1;
        assert(out@ =~= w@.subrange(1, i as int));
    }
    assert(w@.drop_first() =~= w@.subrange(1, w@.len() as int));
    Some(out)
}

/// Pushes a unit of work.
pub(crate) fn push_work(work: &mut Vec<FrameWork>, unit: FrameWork)
    ensures
        work_view(final(work)@) == work_view(old(work)@).push(unit@),
{
    let ghost before = work_view(work@);
    work.push(unit);
    assert(work_view(work@) =~= before.push(unit@));
}

/// The frame engine: the depth budget its expressions run with and the
/// span of the call it runs.
pub struct ExplicitFrames {
    pub budget: u32,
    pub call_span: Span,
    /// Whether the frame is a stream producer, whose body may `yield`.
    pub producer: bool,
}

impl ExplicitFrames {
    /// Pushes a block of statements, none run yet, below `bound`.
    pub fn push_statement_block(work: &mut Vec<FrameWork>, statements: Vec<u32>, bound: usize)
        ensures
            work_view(final(work)@) == work_view(old(work)@).push(
                WorkModel::Block { ss: statements@, k: 0, defers: Seq::empty(), bound: bound as nat }),
    {
        push_work(work, FrameWork::Statements { statements, next: 0, defers: Vec::new(), bound });
    }

    /// A block at statement `next`: the rest of the stack is `work`.
    fn eval_statement(
        &self,
        evaluator: &mut Evaluator,
        program: &FullProgram,
        work: &mut Vec<FrameWork>,
        statements: Vec<u32>,
        next: usize,
        defers: Vec<u32>,
        bound: usize,
        slots: &mut Vec<Value>,
    ) -> (r: Result<FrameStep, RuntimeError>)
        requires
            cache_valid(old(evaluator).indexed_function_cache@, *program),
        ensures
            kept(*old(evaluator), *final(evaluator), *program),
            step_outcome(r, step_block(*program, self.budget as nat, work_view(old(work)@), statements@, next as nat, defers@,
                bound as nat, machine_of(old(slots)@, old(evaluator).stream_items@), self.call_span, self.producer),
                final(work)@, final(slots)@, final(evaluator).stream_items@),
    {
        let cs = self.call_span;
        let budget = self.budget;
        if next >= statements.len() {
            evaluator.run_indexed_defers(program, budget, bound, &defers, slots, cs)?;
            push_work(work, FrameWork::Finish(StmtFlow::Done));
            return Ok(FrameStep::Running);
        }
        let s = statements[next];
        if (s as usize) >= bound {
            return Err(fault_error(cs));
        }
        let (tag, w) = match instruction_at(program, s) {
            Some(x) => x,
            None => return Err(fault_error(cs)),
        };
        match tag {
            FullTag::StmtDefer => {
                if !(w.len() == 1 && w[0] < s) {
                    return Err(fault_error(cs));
                }
                let d = w[0];
                let mut defers = defers;
                defers.push(d);
                push_work(work, FrameWork::Statements { statements, next: next + 1, defers, bound });
                Ok(FrameStep::Running)
            },
            FullTag::StmtLet | FullTag::StmtExpr | FullTag::StmtReturn | FullTag::StmtYield => {
                if tag == FullTag::StmtYield && !self.producer {
                    if w.len() == 1 && w[0] < s {
                        return Err(RuntimeError::new("control-flow", "yield outside stream producer").with_span(cs));
                    }
                    return Err(fault_error(cs));
                }
                let (e, after) = if tag == FullTag::StmtLet {
                    if !(w.len() == 2 && w[1] < s) {
                        return Err(fault_error(cs));
                    }
                    (w[1], StatementContinuation::Store(w[0] as usize))
                } else {
                    if !(w.len() == 1 && w[0] < s) {
                        return Err(fault_error(cs));
                    }
                    let after = if tag == FullTag::StmtExpr {
                        StatementContinuation::Discard
                    } else if tag == FullTag::StmtReturn {
                        StatementContinuation::Return
                    } else {
                        StatementContinuation::Yield
                    };
                    (w[0], after)
                };
                push_work(work, FrameWork::Statements { statements, next: next + 1, defers, bound });
                let ew = ExplicitFrames::push_expr(e, FrameContinuation::Return);
                push_work(work, FrameWork::Expr { work: ew, after });
                Ok(FrameStep::Running)
            },
            FullTag::StmtIf => {
                let shape_ok = (w.len() == 3 && w[2] == 0 || w.len() == 4 && w[2] == 1) && w[0] < s;
                if !shape_ok {
                    return Err(fault_error(cs));
                }
                let then_block = match block_statements(program, w[1]) {
                    Some(v) => v,
                    None => return Err(fault_error(cs)),
                };
                let else_block = if w.len() == 4 {
                    match block_statements(program, w[3]) {
                        Some(v) => Some(v),
                        None => return Err(fault_error(cs)),
                    }
                } else {
                    None
                };
                push_work(work, FrameWork::Statements { statements, next: next + 1, defers, bound });
                let ew = ExplicitFrames::push_expr(w[0], FrameContinuation::Return);
                push_work(work, FrameWork::Expr { work: ew, after: StatementContinuation::If { instruction: s, then_block, else_block } });
                Ok(FrameStep::Running)
            },
            FullTag::StmtFor => {
                if !(w.len() == 3 && w[1] < s) {
                    return Err(fault_error(cs));
                }
                let body = match block_statements(program, w[2]) {
                    Some(v) => v,
                    None => return Err(fault_error(cs)),
                };
                push_work(work, FrameWork::Statements { statements, next: next + 1, defers, bound });
                let ew = ExplicitFrames::push_expr(w[1], FrameContinuation::Return);
                push_work(work, FrameWork::Expr { work: ew, after: StatementContinuation::For { instruction: s, slot: w[0] as usize, body } });
                Ok(FrameStep::Running)
            },
            _ => {
                match evaluator.eval_indexed_stmt(program, budget, s, slots, cs, self.producer)? {
                    StmtFlow::Done => {
                        push_work(work, FrameWork::Statements { statements, next: next + 1, defers, bound });
                        Ok(FrameStep::Running)
                    },
                    flow => {
                        push_work(work, FrameWork::Statements { statements, next: next + 1, defers, bound });
                        push_work(work, FrameWork::Finish(flow));
                        Ok(FrameStep::Running)
                    },
                }
            },
        }
    }

    /// One step of a statement's expression on the continuation machine;
    /// once the expression ends, the statement stores, drops, returns or
    /// yields its value, or takes it as a condition or as loop items.
    fn step_statement_expr(
        &self,
        evaluator: &mut Evaluator,
        program: &FullProgram,
        work: &mut Vec<FrameWork>,
        ew: ExprWork,
        after: StatementContinuation,
        slots: &mut Vec<Value>,
    ) -> (r: Result<FrameStep, RuntimeError>)
        requires
            cache_valid(old(evaluator).indexed_function_cache@, *program),
        ensures
            kept(*old(evaluator), *final(evaluator), *program),
            step_outcome(r, step_eval_unit(*program, self.budget as nat, work_view(old(work)@), expr_work_model(ew), after@,
                machine_of(old(slots)@, old(evaluator).stream_items@), self.call_span, self.producer),
                final(work)@, final(slots)@, final(evaluator).stream_items@),
    {
        let cs = self.call_span;
        match self.step_expr(evaluator, program, ew, slots)? {
            ExprStep::Running(ew2) => {
                push_work(work, FrameWork::Expr { work: ew2, after });
                Ok(FrameStep::Running)
            },
            ExprStep::Finished(IndexedFlow::Break(v)) => match after {
                StatementContinuation::Return => {
                    push_work(work, FrameWork::Finish(StmtFlow::Return(v)));
                    Ok(FrameStep::Running)
                },
                StatementContinuation::Yield => {
                    let ghost before = model_list(evaluator.stream_items@);
                    let ghost vm = v@;
                    evaluator.stream_items.push(v);
                    assert(model_list(evaluator.stream_items@) =~= before.push(vm));
                    push_work(work, FrameWork::Finish(StmtFlow::Done));
                    Ok(FrameStep::Suspended)
                },
                _ => {
                    push_work(work, FrameWork::Finish(StmtFlow::Propagate(v)));
                    Ok(FrameStep::Running)
                },
            },
            ExprStep::Calling { name, args, span, next } => Ok(FrameStep::Calling { name, args, span, next, after }),
            ExprStep::Finished(IndexedFlow::Continue(v)) => match after {
                StatementContinuation::Store(slot) => {
                    if slot >= slots.len() {
                        return Err(fault_error(cs));
                    }
                    let ghost before = model_list(slots@);
                    let ghost vm = v@;
                    slots.set(slot, v);
                    assert(model_list(slots@) =~= before.update(slot as int, vm));
                    push_work(work, FrameWork::Finish(StmtFlow::Done));
                    Ok(FrameStep::Running)
                },
                StatementContinuation::Discard => {
                    push_work(work, FrameWork::Finish(StmtFlow::Done));
                    Ok(FrameStep::Running)
                },
                StatementContinuation::Return => {
                    push_work(work, FrameWork::Finish(StmtFlow::Return(v)));
                    Ok(FrameStep::Running)
                },
                StatementContinuation::Yield => {
                    let ghost before = model_list(evaluator.stream_items@);
                    let ghost vm = v@;
                    evaluator.stream_items.push(v);
                    assert(model_list(evaluator.stream_items@) =~= before.push(vm));
                    push_work(work, FrameWork::Finish(StmtFlow::Done));
                    Ok(FrameStep::Suspended)
                },
                StatementContinuation::If { instruction, then_block, else_block } => {
                    if frame_condition_bool(v, cs)? {
                        Self::push_statement_block(work, then_block, instruction as usize);
                    } else {
                        match else_block {
                            Some(eb) => Self::push_statement_block(work, eb, instruction as usize),
                            None => push_work(work, FrameWork::Finish(StmtFlow::Done)),
                        }
                    }
                    Ok(FrameStep::Running)
                },
                StatementContinuation::For { instruction, slot, body } => match v {
                    Value::List(items) => {
                        push_work(work, FrameWork::ForItems { instruction, slot, body, items, index: 0 });
                        Ok(FrameStep::Running)
                    },
                    other => {
                        proof { reveal_strlit("for expected List, found "); }
                        let mut message = String::from_str("for expected List, found ");
                        message.append(other.type_label());
                        Err(type_error_at(message, cs))
                    },
                },
            },
        }
    }

    /// A loop at item `index`: the item goes into the slot and the body is
    /// pushed above the loop.
    fn step_for_items(
        &self,
        work: &mut Vec<FrameWork>,
        instruction: u32,
        slot: usize,
        body: Vec<u32>,
        items: Vec<Value>,
        index: usize,
        slots: &mut Vec<Value>,
        yielded: Ghost<Seq<Value>>,
    ) -> (r: Result<FrameStep, RuntimeError>)
        ensures
            step_outcome(r, step_loop(work_view(old(work)@), instruction, slot as nat, body@, model_list(items@), index as nat,
                machine_of(old(slots)@, yielded@), self.call_span, self.producer), final(work)@, final(slots)@, yielded@),
    {
        if index >= items.len() {
            push_work(work, FrameWork::Finish(StmtFlow::Done));
            return Ok(FrameStep::Running);
        }
        if slot >= slots.len() {
            return Err(fault_error(self.call_span));
        }
        let ghost before = model_list(slots@);
        slots.set(slot, clone_value(&items[index]));
        assert(model_list(slots@) =~= before.update(slot as int, model_list(items@)[index as int]));
        let mut copy: Vec<u32> = Vec::new();
        let mut i: usize = 0;
        while i < body.len()
            invariant
                i <= body@.len(),
                copy@ == body@.take(i as int),
            decreases body@.len() - i,
        {
            copy.push(body[i]);
            i = i + 1;
            assert(copy@ =~= body@.take(i as int));
        }
        assert(body@.take(i as int) =~= body@);
        push_work(work, FrameWork::ForItems { instruction, slot, body, items, index: index + 1 });
        Self::push_statement_block(work, copy, instruction as usize);
        Ok(FrameStep::Running)
    }

    /// A loop body ended normally or by `continue`: the loop goes on.
    fn continue_loop(work: &mut Vec<FrameWork>, lp: FrameWork)
        ensures
            work_view(final(work)@) == work_view(old(work)@).push(lp@),
    {
        push_work(work, lp);
    }

    /// A loop body ended by `break`: the loop, already taken off the stack,
    /// ends normally.
    fn break_loop(work: &mut Vec<FrameWork>)
        ensures
            work_view(final(work)@) == work_view(old(work)@).push(WorkModel::Finish(StmtEnd::Done)),
    {
        push_work(work, FrameWork::Finish(StmtFlow::Done));
    }

    /// Hands the flow a block or loop ended with to the unit below it.
    fn complete_flow(
        &self,
        evaluator: &mut Evaluator,
        program: &FullProgram,
        work: &mut Vec<FrameWork>,
        flow: StmtFlow,
        slots: &mut Vec<Value>,
    ) -> (r: Result<FrameStep, RuntimeError>)
        requires
            cache_valid(old(evaluator).indexed_function_cache@, *program),
        ensures
            kept(*old(evaluator), *final(evaluator), *program),
            step_outcome(r, step_finish(*program, self.budget as nat, work_view(old(work)@), flow@,
                machine_of(old(slots)@, old(evaluator).stream_items@), self.call_span, self.producer),
                final(work)@, final(slots)@, final(evaluator).stream_items@),
    {
        let ghost w0 = work_view(work@);
        let below = match work.pop() {
            Some(u) => u,
            None => return Ok(FrameStep::Finished(flow)),
        };
        assert(work_view(work@) =~= w0.drop_last());
        match below {
            FrameWork::Statements { statements, next, defers, bound } => {
                if matches!(flow, StmtFlow::Done) {
                    push_work(work, FrameWork::Statements { statements, next, defers, bound });
                    assert(work_view(work@) =~= w0);
                    return Ok(FrameStep::Running);
                }
                evaluator.run_indexed_defers(program, self.budget, bound, &defers, slots, self.call_span)?;
                push_work(work, FrameWork::Finish(flow));
                Ok(FrameStep::Running)
            },
            FrameWork::ForItems { instruction, slot, body, items, index } => {
                match flow {
                    StmtFlow::Done | StmtFlow::Continue => {
                        Self::continue_loop(work, FrameWork::ForItems { instruction, slot, body, items, index });
                        assert(work_view(work@) =~= w0);
                        Ok(FrameStep::Running)
                    },
                    StmtFlow::Break => {
                        Self::break_loop(work);
                        Ok(FrameStep::Running)
                    },
                    flow => {
                        push_work(work, FrameWork::Finish(flow));
                        Ok(FrameStep::Running)
                    },
                }
            },
            FrameWork::Finish(_) => Err(fault_error(self.call_span)),
            FrameWork::Expr { .. } => Err(fault_error(self.call_span)),
        }
    }

    /// One step of the frame's work stack.
    pub fn step(
        &self,
        evaluator: &mut Evaluator,
        program: &FullProgram,
        work: &mut Vec<FrameWork>,
        slots: &mut Vec<Value>,
    ) -> (r: Result<FrameStep, RuntimeError>)
        requires
            cache_valid(old(evaluator).indexed_function_cache@, *program),
        ensures
            kept(*old(evaluator), *final(evaluator), *program),
            step_outcome(r, step(*program, self.budget as nat, work_view(old(work)@),
                machine_of(old(slots)@, old(evaluator).stream_items@), self.call_span, self.producer),
                final(work)@, final(slots)@, final(evaluator).stream_items@),
    {
        let ghost w0 = work_view(work@);
        let unit = match work.pop() {
            Some(u) => u,
            None => return Ok(FrameStep::Finished(StmtFlow::Done)),
        };
        assert(work_view(work@) =~= w0.drop_last());
        assert(unit@ == w0.last());
        match unit {
            FrameWork::Statements { statements, next, defers, bound } =>
                self.eval_statement(evaluator, program, work, statements, next, defers, bound, slots),
            FrameWork::ForItems { instruction, slot, body, items, index } =>
                self.step_for_items(work, instruction, slot, body, items, index, slots, Ghost(evaluator.stream_items@)),
            FrameWork::Finish(flow) => self.complete_flow(evaluator, program, work, flow, slots),
            FrameWork::Expr { work: ew, after } => self.step_statement_expr(evaluator, program, work, ew, after, slots),
        }
    }

    /// Takes up to `max_steps` steps; a producer stops at a `yield`.
    pub fn run_steps(
        &self,
        evaluator: &mut Evaluator,
        program: &FullProgram,
        work: &mut Vec<FrameWork>,
        slots: &mut Vec<Value>,
        stop_at_yield: bool,
        max_steps: u64,
    ) -> (r: Result<FrameRun, RuntimeError>)
        requires
            cache_valid(old(evaluator).indexed_function_cache@, *program),
        ensures
            kept(*old(evaluator), *final(evaluator), *program),
            run_outcome(r, run_steps(*program, self.budget as nat, work_view(old(work)@),
                machine_of(old(slots)@, old(evaluator).stream_items@), self.call_span, stop_at_yield, max_steps as nat, self.producer),
                final(work)@, final(slots)@, final(evaluator).stream_items@),
    {
        let ghost start = run_steps(*program, self.budget as nat, work_view(work@),
            machine_of(slots@, evaluator.stream_items@), self.call_span, stop_at_yield, max_steps as nat, self.producer);
        let mut fuel = max_steps;
        loop
            invariant
                kept(*old(evaluator), *evaluator, *program),
                start == run_steps(*program, self.budget as nat, work_view(old(work)@),
                    machine_of(old(slots)@, old(evaluator).stream_items@), self.call_span, stop_at_yield, max_steps as nat, self.producer),
                start == run_steps(*program, self.budget as nat, work_view(work@),
                    machine_of(slots@, evaluator.stream_items@), self.call_span, stop_at_yield, fuel as nat, self.producer),
            decreases fuel,
        {
            if fuel == 0 {
                return Ok(FrameRun::OutOfSteps);
            }
            proof {
                lemma_step_calling_name(*program, self.budget as nat, work_view(work@), machine_of(slots@, evaluator.stream_items@), self.call_span, self.producer);
            }
            match self.step(evaluator, program, work, slots)? {
                FrameStep::Running => {},
                FrameStep::Suspended => if stop_at_yield {
                    return Ok(FrameRun::Suspended);
                },
                FrameStep::Finished(flow) => return Ok(FrameRun::Finished(flow)),
                FrameStep::Calling { name, args, span, next, after } => {
                    let key = crate::ir::LoweredFunctionKey { name: crate::ir::Name { id: name } };
                    let v = evaluator.eval_indexed_named_call(program, self.budget, key, args, span)?;
                    push_work(work, FrameWork::Expr { work: ExplicitFrames::push_value(v, next), after });
                },
            }
            fuel = fuel - 1;
        }
    }
}

} // verus!

verus! {

/// How many steps a frame may take before it is stopped.
pub const MAX_FRAME_STEPS: u64 = 0xffff_ffff_ffff_ffff;

/// The error a frame that used up its steps raises.
pub open spec fn step_limit_error(cs: Span) -> ErrorModel {
    err_model("step-limit"@, "frame ran out of steps"@, Some(cs))
}

/// The work a function body starts with: its statements, below every
/// instruction.
pub open spec fn body_work(p: FullProgram, ss: Seq<u32>) -> Seq<WorkModel> {
    seq![WorkModel::Block { ss, k: 0, defers: Seq::empty(), bound: p.execution.instructions@.len() as nat }]
}

} // verus!
