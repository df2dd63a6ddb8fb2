//! Calls on heap frames: a call pushes a frame for the callee instead of
//! recursing, the caller keeps the continuation its value goes to, and a
//! finished frame hands its value back to the frame below. What a stack of
//! frames means is defined over the recursive semantics, every step is
//! proved to keep it, and so a finished run gives exactly what the
//! recursive evaluator gives.
use vstd::prelude::*;
use crate::value::{Span, ErrorModel, ValueModel, err_model};
use crate::ir::{FullProgram, LoweredType};
use crate::semantics::{
    Machine, StmtEnd, fault, ev_function, ev_stmts, function_result, bind_slots, arity_error, named_function, depth_error,
    named_call,
};
use crate::blocks::statement_block_of;
use crate::frames::{WorkModel, StmtCont};
use crate::explicit::{StepModel, step, sem_work, lemma_step_keeps_meaning, body_work, step_limit_error, MAX_FRAME_STEPS};
use crate::continuation::{ContModel, ExprWorkModel, FrameContinuation, cont_model};
use crate::frames::{FrameWork, StatementContinuation, work_view};
use crate::explicit::{ExplicitFrames, block_statements, push_work, FrameStep, lemma_step_calling_name};
use crate::interp::{machine_of, fault_error, kept, StmtFlow, indexed_function_result, value_outcome};
use crate::evaluator::{Evaluator, cache_valid};
use crate::value::{Value, RuntimeError, model_list};
use vstd::string::*;

verus! {

/// A call frame: its work and machine, the depth budget and call span it
/// runs with, its function's return kind, and where its value goes in the
/// frame below: the continuation, then the statement waiting for it.
pub struct FrameModel {
    pub work: Seq<WorkModel>,
    pub m: Machine,
    pub b: nat,
    pub cs: Span,
    pub kind: LoweredType,
    pub ret: ContModel,
    pub after: StmtCont,
}

/// Whether a function of return kind `kind` is a stream producer, whose
/// body may `yield`.
pub open spec fn streams(kind: LoweredType) -> bool {
    kind == LoweredType::Stream
}

/// The value a frame gives back once its body ends.
pub open spec fn frame_result(p: FullProgram, fr: FrameModel) -> Result<ValueModel, ErrorModel> {
    match sem_work(p, fr.b, fr.work, fr.m, fr.cs, streams(fr.kind)) {
        Err(e) => Err(e),
        Ok((end, m)) => function_result(fr.kind, end, m.yielded, fr.cs),
    }
}

/// The frame `caller` once the value `v` of its callee `callee` arrives:
/// the value goes to the callee's return continuation.
pub open spec fn resume(caller: FrameModel, callee: FrameModel, v: ValueModel) -> FrameModel {
    FrameModel {
        work: caller.work.push(WorkModel::Eval { work: ExprWorkModel::Deliver { value: v, next: callee.ret }, after: callee.after }),
        ..caller
    }
}

/// What a stack of frames means, the running frame last: the value the
/// bottom frame gives back, each frame's value having gone to the frame
/// below it.
pub open spec fn sem_frames(p: FullProgram, fs: Seq<FrameModel>) -> Result<ValueModel, ErrorModel>
    decreases fs.len(),
{
    if fs.len() == 0 {
        Ok(ValueModel::Unit)
    } else {
        finish_into(p, fs.drop_last(), fs.last(), frame_result(p, fs.last()))
    }
}

/// Handing the outcome `r` of frame `top` to the frames `below` it.
pub open spec fn finish_into(p: FullProgram, below: Seq<FrameModel>, top: FrameModel, r: Result<ValueModel, ErrorModel>)
    -> Result<ValueModel, ErrorModel>
    decreases below.len(), 0int,
{
    match r {
        Err(e) => Err(e),
        Ok(v) => if below.len() == 0 {
            Ok(v)
        } else {
            let caller = resume(below.last(), top, v);
            finish_into(p, below.drop_last(), caller, frame_result(p, caller))
        },
    }
}

/// The frame a call of function `f` with `args` starts, checked as a
/// recursive call is: the callee's body, none of it run, over its slots.
pub open spec fn call_frame(p: FullProgram, b: nat, f: nat, args: Seq<ValueModel>, cs: Span, ret: ContModel, after: StmtCont)
    -> Result<FrameModel, ErrorModel>
{
    if f >= p.functions@.len() {
        Err(fault(cs))
    } else {
        let func = p.functions@[f as int];
        let h = func.header;
        if args.len() != h.param_count {
            Err(arity_error(h.param_count as nat, args.len(), cs))
        } else if h.slot_count < h.param_count {
            Err(fault(cs))
        } else {
            match statement_block_of(&p.execution, func.body) {
                None => Err(fault(cs)),
                Some(ss) => Ok(FrameModel {
                    work: body_work(p, ss),
                    m: Machine { slots: bind_slots(args, h.slot_count as nat), yielded: Seq::empty() },
                    b,
                    cs,
                    kind: h.return_kind,
                    ret,
                    after,
                }),
            }
        }
    }
}

/// A frame started for a call gives back what the recursive call gives.
pub proof fn lemma_call_frame(p: FullProgram, b: nat, f: nat, args: Seq<ValueModel>, cs: Span, ret: ContModel, after: StmtCont)
    ensures
        match call_frame(p, b, f, args, cs, ret, after) {
            Err(e) => ev_function(p, b, f, args, cs) == Err::<ValueModel, ErrorModel>(e),
            Ok(fr) => frame_result(p, fr) == ev_function(p, b, f, args, cs),
        },
{
    match call_frame(p, b, f, args, cs, ret, after) {
        Err(e) => {},
        Ok(fr) => {
            let ss = statement_block_of(&p.execution, p.functions@[f as int].body)->0;
            let w0 = body_work(p, ss);
            assert(w0.drop_last() =~= Seq::<WorkModel>::empty());
            match ev_stmts(p, b, p.execution.instructions@.len() as nat, ss, 0, Seq::empty(), fr.m, cs, streams(fr.kind)) {
                Err(e) => {},
                Ok((e, m1)) => {
                    assert(sem_work(p, b, w0, fr.m, cs, streams(fr.kind)) == Ok::<(StmtEnd, Machine), ErrorModel>((e, m1)));
                },
            }
        },
    }
}

/// What a step of the stack of frames leaves: more frames, or the value
/// the bottom frame gave back.
pub enum FramesStepModel {
    Running(Seq<FrameModel>),
    Finished(ValueModel),
}

/// The error for a call of a name no function has.
pub open spec fn unresolved_error(p: FullProgram, name: u32, span: Span) -> ErrorModel {
    err_model("unresolved-lowered-call"@, p.execution.strings@[name as int]@, Some(span))
}

/// One step of the running frame: a step of its work; a call pushes the
/// callee's frame above it; a finished body hands its value to the frame
/// below, or ends the run when it is the bottom frame. A `yield` in a frame
/// is only recorded in its machine.
pub open spec fn step_frames(p: FullProgram, fs: Seq<FrameModel>) -> Result<FramesStepModel, ErrorModel> {
    if fs.len() == 0 {
        Ok(FramesStepModel::Finished(ValueModel::Unit))
    } else {
        let top = fs.last();
        let below = fs.drop_last();
        match step(p, top.b, top.work, top.m, top.cs, streams(top.kind)) {
            Err(e) => Err(e),
            Ok(StepModel::Running(w2, m2)) => Ok(FramesStepModel::Running(below.push(FrameModel { work: w2, m: m2, ..top }))),
            Ok(StepModel::Suspended(w2, m2)) => Ok(FramesStepModel::Running(below.push(FrameModel { work: w2, m: m2, ..top }))),
            Ok(StepModel::Finished(end, m2)) => match function_result(top.kind, end, m2.yielded, top.cs) {
                Err(e) => Err(e),
                Ok(v) => if below.len() == 0 {
                    Ok(FramesStepModel::Finished(v))
                } else {
                    Ok(FramesStepModel::Running(below.drop_last().push(resume(below.last(), top, v))))
                },
            },
            Ok(StepModel::Calling { name, args, span, next, after, rest, m: m2 }) => match named_function(p, name) {
                None => Err(unresolved_error(p, name, span)),
                Some(f) => if top.b == 0 {
                    Err(depth_error(span))
                } else {
                    match call_frame(p, (top.b - 1) as nat, f, args, span, next, after) {
                        Err(e) => Err(e),
                        Ok(callee) => Ok(FramesStepModel::Running(below.push(FrameModel { work: rest, m: m2, ..top }).push(callee))),
                    }
                },
            },
        }
    }
}

/// A step agrees with the meaning of the stack it is taken on.
pub open spec fn frames_step_keeps(p: FullProgram, fs: Seq<FrameModel>, r: Result<FramesStepModel, ErrorModel>) -> bool {
    match r {
        Err(e) => sem_frames(p, fs) == Err::<ValueModel, ErrorModel>(e),
        Ok(FramesStepModel::Running(fs2)) => sem_frames(p, fs) == sem_frames(p, fs2),
        Ok(FramesStepModel::Finished(v)) => sem_frames(p, fs) == Ok::<ValueModel, ErrorModel>(v),
    }
}

proof fn lemma_push_frame(below: Seq<FrameModel>, f: FrameModel)
    ensures
        below.push(f).last() == f,
        below.push(f).drop_last() == below,
        below.push(f).len() == below.len() + 1,
{
    assert(below.push(f).drop_last() =~= below);
}

proof fn lemma_frames_running(p: FullProgram, below: Seq<FrameModel>, top: FrameModel, w2: Seq<WorkModel>, m2: Machine)
    requires
        sem_work(p, top.b, top.work, top.m, top.cs, streams(top.kind)) == sem_work(p, top.b, w2, m2, top.cs, streams(top.kind)),
    ensures
        sem_frames(p, below.push(top)) == sem_frames(p, below.push(FrameModel { work: w2, m: m2, ..top })),
{
    let t2 = FrameModel { work: w2, m: m2, ..top };
    lemma_push_frame(below, top);
    lemma_push_frame(below, t2);
    assert(frame_result(p, top) == frame_result(p, t2));
    if below.len() > 0 {
        match frame_result(p, top) {
            Err(e) => {},
            Ok(v) => {
                assert(resume(below.last(), top, v) == resume(below.last(), t2, v));
            },
        }
    }
}

proof fn lemma_frames_finished(p: FullProgram, below: Seq<FrameModel>, top: FrameModel, end: StmtEnd, m2: Machine)
    requires
        sem_work(p, top.b, top.work, top.m, top.cs, streams(top.kind)) == Ok::<(StmtEnd, Machine), ErrorModel>((end, m2)),
    ensures
        frames_step_keeps(p, below.push(top), match function_result(top.kind, end, m2.yielded, top.cs) {
            Err(e) => Err(e),
            Ok(v) => if below.len() == 0 {
                Ok(FramesStepModel::Finished(v))
            } else {
                Ok(FramesStepModel::Running(below.drop_last().push(resume(below.last(), top, v))))
            },
        }),
{
    lemma_push_frame(below, top);
    match function_result(top.kind, end, m2.yielded, top.cs) {
        Err(e) => {},
        Ok(v) => if below.len() > 0 {
            lemma_push_frame(below.drop_last(), resume(below.last(), top, v));
        },
    }
}

/// Handing an outcome down depends only on where the frame's value goes.
proof fn lemma_finish_into_same(p: FullProgram, below: Seq<FrameModel>, t1: FrameModel, t2: FrameModel, r: Result<ValueModel, ErrorModel>)
    requires
        t1.ret == t2.ret,
        t1.after == t2.after,
    ensures
        finish_into(p, below, t1, r) == finish_into(p, below, t2, r),
{
    match r {
        Err(e) => {},
        Ok(v) => if below.len() > 0 {
            assert(resume(below.last(), t1, v) == resume(below.last(), t2, v));
        },
    }
}

/// The frame `top` with its call's value `v` handed to `next`.
pub open spec fn returned_to(top: FrameModel, rest: Seq<WorkModel>, m2: Machine, next: ContModel, after: StmtCont, v: ValueModel) -> FrameModel {
    FrameModel {
        work: rest.push(WorkModel::Eval { work: ExprWorkModel::Deliver { value: v, next }, after }),
        m: m2,
        ..top
    }
}

proof fn lemma_frames_calling(
    p: FullProgram, below: Seq<FrameModel>, top: FrameModel,
    name: u32, args: Seq<ValueModel>, span: Span, next: ContModel, after: StmtCont, rest: Seq<WorkModel>, m2: Machine,
)
    requires
        sem_work(p, top.b, top.work, top.m, top.cs, streams(top.kind)) == match named_call(p, top.b, name, args, span) {
            Err(e) => Err(e),
            Ok(r) => sem_work(p, top.b, rest.push(WorkModel::Eval { work: ExprWorkModel::Deliver { value: r, next }, after }), m2, top.cs, streams(top.kind)),
        },
    ensures
        frames_step_keeps(p, below.push(top), match named_function(p, name) {
            None => Err(unresolved_error(p, name, span)),
            Some(f) => if top.b == 0 {
                Err(depth_error(span))
            } else {
                match call_frame(p, (top.b - 1) as nat, f, args, span, next, after) {
                    Err(e) => Err(e),
                    Ok(callee) => Ok(FramesStepModel::Running(below.push(FrameModel { work: rest, m: m2, ..top }).push(callee))),
                }
            },
        }),
{
    let caller = FrameModel { work: rest, m: m2, ..top };
    lemma_push_frame(below, top);
    assert(sem_frames(p, below.push(top)) == finish_into(p, below, top, frame_result(p, top)));
    assert(frame_result(p, top) == match named_call(p, top.b, name, args, span) {
        Err(e) => Err(e),
        Ok(r) => frame_result(p, returned_to(top, rest, m2, next, after, r)),
    });
    match named_function(p, name) {
        None => {},
        Some(f) => if top.b > 0 {
            lemma_call_frame(p, (top.b - 1) as nat, f, args, span, next, after);
            assert(named_call(p, top.b, name, args, span) == ev_function(p, (top.b - 1) as nat, f, args, span));
            match call_frame(p, (top.b - 1) as nat, f, args, span, next, after) {
                Err(e) => {},
                Ok(callee) => {
                    lemma_push_frame(below, caller);
                    lemma_push_frame(below.push(caller), callee);
                    let after_fs = below.push(caller).push(callee);
                    assert(sem_frames(p, after_fs) == finish_into(p, below.push(caller), callee, frame_result(p, callee)));
                    match frame_result(p, callee) {
                        Err(e) => {},
                        Ok(v) => {
                            let resumed = resume(caller, callee, v);
                            assert(resumed == returned_to(top, rest, m2, next, after, v));
                            assert(finish_into(p, below.push(caller), callee, Ok::<ValueModel, ErrorModel>(v))
                                == finish_into(p, below, resumed, frame_result(p, resumed)));
                            lemma_finish_into_same(p, below, top, resumed, frame_result(p, resumed));
                        },
                    }
                },
            }
        },
    }
}

/// Each step keeps the meaning of the stack of frames: what is left means
/// exactly what the recursive calls still have to do, an error of a step is
/// the error of the whole, and a finished run gives the whole's value.
pub proof fn lemma_frames_step_keeps_meaning(p: FullProgram, fs: Seq<FrameModel>)
    ensures
        frames_step_keeps(p, fs, step_frames(p, fs)),
        step_frames(p, fs) matches Ok(FramesStepModel::Running(fs2)) ==> fs2.len() > 0,
{
    if fs.len() == 0 {
        return;
    }
    let top = fs.last();
    let below = fs.drop_last();
    assert(fs =~= below.push(top));
    lemma_step_keeps_meaning(p, top.b, top.work, top.m, top.cs, streams(top.kind));
    match step(p, top.b, top.work, top.m, top.cs, streams(top.kind)) {
        Err(e) => {
            lemma_push_frame(below, top);
        },
        Ok(StepModel::Running(w2, m2)) => lemma_frames_running(p, below, top, w2, m2),
        Ok(StepModel::Suspended(w2, m2)) => lemma_frames_running(p, below, top, w2, m2),
        Ok(StepModel::Finished(end, m2)) => lemma_frames_finished(p, below, top, end, m2),
        Ok(StepModel::Calling { name, args, span, next, after, rest, m: m2 }) =>
            lemma_frames_calling(p, below, top, name, args, span, next, after, rest, m2),
    }
}

/// How a run of the stack of frames stopped: with the bottom frame's
/// value, or with its step allowance used up.
pub enum FramesRunModel {
    Finished(ValueModel),
    OutOfSteps(Seq<FrameModel>),
}

/// Taking up to `fuel` steps of the stack of frames.
pub open spec fn run_frames(p: FullProgram, fs: Seq<FrameModel>, fuel: nat) -> Result<FramesRunModel, ErrorModel>
    decreases fuel,
{
    if fuel == 0 {
        Ok(FramesRunModel::OutOfSteps(fs))
    } else {
        match step_frames(p, fs) {
            Err(e) => Err(e),
            Ok(FramesStepModel::Running(fs2)) => run_frames(p, fs2, (fuel - 1) as nat),
            Ok(FramesStepModel::Finished(v)) => Ok(FramesRunModel::Finished(v)),
        }
    }
}

/// A run of the stack of frames agrees with the meaning it starts from.
pub open spec fn frames_run_keeps(p: FullProgram, fs: Seq<FrameModel>, r: Result<FramesRunModel, ErrorModel>) -> bool {
    match r {
        Err(e) => sem_frames(p, fs) == Err::<ValueModel, ErrorModel>(e),
        Ok(FramesRunModel::OutOfSteps(fs2)) => sem_frames(p, fs) == sem_frames(p, fs2),
        Ok(FramesRunModel::Finished(v)) => sem_frames(p, fs) == Ok::<ValueModel, ErrorModel>(v),
    }
}

/// However many steps are taken, the stack of frames keeps its meaning.
pub proof fn lemma_frames_run_keeps_meaning(p: FullProgram, fs: Seq<FrameModel>, fuel: nat)
    ensures
        frames_run_keeps(p, fs, run_frames(p, fs, fuel)),
    decreases fuel,
{
    if fuel > 0 {
        lemma_frames_step_keeps_meaning(p, fs);
        match step_frames(p, fs) {
            Ok(FramesStepModel::Running(fs2)) => lemma_frames_run_keeps_meaning(p, fs2, (fuel - 1) as nat),
            _ => {},
        }
    }
}

/// What calling function `f` with `args` on heap frames gives: the call is
/// checked as a recursive call is, then the stack of frames runs from the
/// callee's frame until it gives back its value.
pub open spec fn heap_call(p: FullProgram, b: nat, f: nat, args: Seq<ValueModel>, cs: Span) -> Result<ValueModel, ErrorModel> {
    match call_frame(p, b, f, args, cs, ContModel::Return, StmtCont::Discard) {
        Err(e) => Err(e),
        Ok(fr) => match run_frames(p, seq![fr], MAX_FRAME_STEPS as nat) {
            Err(e) => Err(e),
            Ok(FramesRunModel::Finished(v)) => Ok(v),
            Ok(FramesRunModel::OutOfSteps(_)) => Err(step_limit_error(cs)),
        },
    }
}

/// Calling a function on heap frames, calls it makes included, gives what
/// the recursive evaluator gives, whenever the run does not use up its
/// steps: the same value or the same error.
pub proof fn lemma_frames_match_recursion(p: FullProgram, b: nat, f: nat, args: Seq<ValueModel>, cs: Span)
    requires
        !(call_frame(p, b, f, args, cs, ContModel::Return, StmtCont::Discard) matches Ok(fr)
            && run_frames(p, seq![fr], MAX_FRAME_STEPS as nat) matches Ok(FramesRunModel::OutOfSteps(_))),
    ensures
        heap_call(p, b, f, args, cs) == ev_function(p, b, f, args, cs),
{
    lemma_call_frame(p, b, f, args, cs, ContModel::Return, StmtCont::Discard);
    match call_frame(p, b, f, args, cs, ContModel::Return, StmtCont::Discard) {
        Err(e) => {},
        Ok(fr) => {
            let fs = seq![fr];
            lemma_frames_run_keeps_meaning(p, fs, MAX_FRAME_STEPS as nat);
            assert(fs.drop_last() =~= Seq::<FrameModel>::empty());
            assert(fs.last() == fr);
            assert(sem_frames(p, fs) == frame_result(p, fr));
        },
    }
}

/// The frame function `f`'s body starts in over the prepared slots `slots`.
pub open spec fn body_frame(p: FullProgram, b: nat, f: nat, slots: Seq<ValueModel>, cs: Span) -> Result<FrameModel, ErrorModel> {
    if f >= p.functions@.len() {
        Err(fault(cs))
    } else {
        match statement_block_of(&p.execution, p.functions@[f as int].body) {
            None => Err(fault(cs)),
            Some(ss) => Ok(FrameModel {
                work: body_work(p, ss),
                m: Machine { slots, yielded: Seq::empty() },
                b,
                cs,
                kind: p.functions@[f as int].header.return_kind,
                ret: ContModel::Return,
                after: StmtCont::Discard,
            }),
        }
    }
}

/// What running function `f`'s body on heap frames from the slots `slots`
/// gives.
pub open spec fn heap_body(p: FullProgram, b: nat, f: nat, slots: Seq<ValueModel>, cs: Span) -> Result<ValueModel, ErrorModel> {
    match body_frame(p, b, f, slots, cs) {
        Err(e) => Err(e),
        Ok(fr) => match run_frames(p, seq![fr], MAX_FRAME_STEPS as nat) {
            Err(e) => Err(e),
            Ok(FramesRunModel::Finished(v)) => Ok(v),
            Ok(FramesRunModel::OutOfSteps(_)) => Err(step_limit_error(cs)),
        },
    }
}

/// What the recursive semantics gives for function `f`'s body over the
/// slots `slots`.
pub open spec fn body_result(p: FullProgram, b: nat, f: nat, slots: Seq<ValueModel>, cs: Span) -> Result<ValueModel, ErrorModel> {
    if f >= p.functions@.len() {
        Err(fault(cs))
    } else {
        match statement_block_of(&p.execution, p.functions@[f as int].body) {
            None => Err(fault(cs)),
            Some(ss) => match ev_stmts(p, b, p.execution.instructions@.len() as nat, ss, 0, Seq::empty(),
                Machine { slots, yielded: Seq::empty() }, cs, streams(p.functions@[f as int].header.return_kind)) {
                Err(e) => Err(e),
                Ok((end, m)) => function_result(p.functions@[f as int].header.return_kind, end, m.yielded, cs),
            },
        }
    }
}

/// Running a body on heap frames from prepared slots gives what the
/// recursive semantics gives for it, whenever the run does not use up its
/// steps.
pub proof fn lemma_frame_slots_match_recursion(p: FullProgram, b: nat, f: nat, slots: Seq<ValueModel>, cs: Span)
    requires
        !(body_frame(p, b, f, slots, cs) matches Ok(fr)
            && run_frames(p, seq![fr], MAX_FRAME_STEPS as nat) matches Ok(FramesRunModel::OutOfSteps(_))),
    ensures
        heap_body(p, b, f, slots, cs) == body_result(p, b, f, slots, cs),
{
    match body_frame(p, b, f, slots, cs) {
        Err(e) => {},
        Ok(fr) => {
            let fs = seq![fr];
            lemma_frames_run_keeps_meaning(p, fs, MAX_FRAME_STEPS as nat);
            assert(fs.drop_last() =~= Seq::<FrameModel>::empty());
            assert(fs.last() == fr);
            let ss = statement_block_of(&p.execution, p.functions@[f as int].body)->0;
            let w0 = body_work(p, ss);
            assert(w0.drop_last() =~= Seq::<WorkModel>::empty());
            match ev_stmts(p, b, p.execution.instructions@.len() as nat, ss, 0, Seq::empty(), fr.m, cs, streams(fr.kind)) {
                Err(e) => {},
                Ok((e, m1)) => {
                    assert(sem_work(p, b, w0, fr.m, cs, streams(fr.kind)) == Ok::<(StmtEnd, Machine), ErrorModel>((e, m1)));
                },
            }
            assert(sem_frames(p, fs) == frame_result(p, fr));
        },
    }
}

} // verus!

verus! {

/// A call running on a heap frame: its work, slots and yielded items, the
/// depth budget and call span it runs with, its function's return kind,
/// and where its value goes in the frame below.
pub struct HeapFrame {
    pub work: Vec<FrameWork>,
    pub slots: Vec<Value>,
    pub yielded: Vec<Value>,
    pub budget: u32,
    pub call_span: Span,
    pub return_kind: LoweredType,
    pub return_to: FrameContinuation,
    pub after: StatementContinuation,
}

/// The meaning of a heap frame.
pub open spec fn frame_model(f: HeapFrame) -> FrameModel {
    FrameModel {
        work: work_view(f.work@),
        m: machine_of(f.slots@, f.yielded@),
        b: f.budget as nat,
        cs: f.call_span,
        kind: f.return_kind,
        ret: cont_model(f.return_to),
        after: f.after@,
    }
}

/// The meaning of a stack of heap frames.
pub open spec fn frames_model(fs: Seq<HeapFrame>) -> Seq<FrameModel> {
    Seq::new(fs.len(), |i: int| frame_model(fs[i]))
}

/// How a run of heap frames stopped.
pub enum FramesRun {
    Finished(Value),
    OutOfSteps,
}

/// Pushes a frame, keeping the meaning of the stack in step.
fn push_frame(calls: &mut Vec<HeapFrame>, f: HeapFrame)
    ensures
        frames_model(final(calls)@) == frames_model(old(calls)@).push(frame_model(f)),
{
    let ghost before = frames_model(calls@);
    calls.push(f);
    assert(frames_model(calls@) =~= before.push(frame_model(f)));
}

/// Pops the running frame, keeping the meaning of the stack in step.
fn pop_frame(calls: &mut Vec<HeapFrame>) -> (r: Option<HeapFrame>)
    ensures
        match r {
            Some(f) => old(calls)@.len() > 0 && frame_model(f) == frames_model(old(calls)@).last()
                && frames_model(final(calls)@) == frames_model(old(calls)@).drop_last(),
            None => old(calls)@.len() == 0 && final(calls)@.len() == 0,
        },
{
    let ghost before = frames_model(calls@);
    let r = calls.pop();
    match r {
        Some(f) => {
            assert(frames_model(calls@) =~= before.drop_last());
            Some(f)
        },
        None => None,
    }
}

impl ExplicitFrames {
    /// Pushes the frame of a call of function `f` with its slots bound: the
    /// callee's body, none of it run.
    pub fn push_call_with_slots(
        calls: &mut Vec<HeapFrame>,
        program: &FullProgram,
        budget: u32,
        f: usize,
        slots: Vec<Value>,
        call_span: Span,
        return_to: FrameContinuation,
        after: StatementContinuation,
    ) -> (r: Result<(), RuntimeError>)
        requires
            f < program.functions@.len(),
        ensures
            match statement_block_of(&program.execution, program.functions@[f as int].body) {
                None => r matches Err(e) && e@ == fault(call_span) && final(calls)@ == old(calls)@,
                Some(ss) => r is Ok && frames_model(final(calls)@) == frames_model(old(calls)@).push(FrameModel {
                    work: body_work(*program, ss),
                    m: Machine { slots: model_list(slots@), yielded: Seq::empty() },
                    b: budget as nat,
                    cs: call_span,
                    kind: program.functions@[f as int].header.return_kind,
                    ret: cont_model(return_to),
                    after: after@,
                }),
            },
    {
        let body = match block_statements(program, program.functions[f].body) {
            Some(v) => v,
            None => return Err(fault_error(call_span)),
        };
        let mut work: Vec<FrameWork> = Vec::new();
        ExplicitFrames::push_statement_block(&mut work, body, program.execution.instructions.len());
        assert(work_view(work@) =~= body_work(*program, statement_block_of(&program.execution, program.functions@[f as int].body)->0));
        let yielded: Vec<Value> = Vec::new();
        assert(model_list(yielded@) =~= Seq::<ValueModel>::empty());
        let frame = HeapFrame {
            work,
            slots,
            yielded,
            budget,
            call_span,
            return_kind: program.functions[f].header.return_kind,
            return_to,
            after,
        };
        push_frame(calls, frame);
        Ok(())
    }

    /// Pushes the frame of a call of function `f` with `args`, checked as a
    /// recursive call is: the argument count, and the slots the arguments
    /// and then `Unit` fill.
    pub fn push_call(
        calls: &mut Vec<HeapFrame>,
        program: &FullProgram,
        budget: u32,
        f: usize,
        args: Vec<Value>,
        call_span: Span,
        return_to: FrameContinuation,
        after: StatementContinuation,
    ) -> (r: Result<(), RuntimeError>)
        ensures
            match call_frame(*program, budget as nat, f as nat, model_list(args@), call_span, cont_model(return_to), after@) {
                Err(e) => r matches Err(x) && x@ == e,
                Ok(fr) => r is Ok && frames_model(final(calls)@) == frames_model(old(calls)@).push(fr),
            },
    {
        if f >= program.functions.len() {
            return Err(fault_error(call_span));
        }
        let h = program.functions[f].header;
        if args.len() != h.param_count {
            proof {
                reveal_strlit("expected ");
                reveal_strlit(" arguments, found ");
            }
            let mut message = String::from_str("expected ");
            crate::text::push_decimal(&mut message, h.param_count as u64);
            message.append(" arguments, found ");
            crate::text::push_decimal(&mut message, args.len() as u64);
            return Err(RuntimeError::new_owned("arity", message).with_span(call_span));
        }
        if h.slot_count < h.param_count {
            return Err(fault_error(call_span));
        }
        let ghost arg_models = model_list(args@);
        let mut slots = args;
        while slots.len() < h.slot_count
            invariant
                slots@.len() <= h.slot_count,
                arg_models.len() == h.param_count,
                model_list(slots@) == arg_models + Seq::new((slots@.len() - arg_models.len()) as nat, |i: int| ValueModel::Unit),
            decreases h.slot_count - slots@.len(),
        {
            let ghost before = model_list(slots@);
            slots.push(Value::Unit);
            assert(model_list(slots@) =~= before.push(ValueModel::Unit));
            assert(model_list(slots@) =~= arg_models + Seq::new((slots@.len() - arg_models.len()) as nat, |i: int| ValueModel::Unit));
        }
        assert(model_list(slots@) == bind_slots(arg_models, h.slot_count as nat));
        Self::push_call_with_slots(calls, program, budget, f, slots, call_span, return_to, after)
    }
}

impl ExplicitFrames {
    /// The running frame `frame` has ended its body with `flow`: its value
    /// goes to the frame below, or, when there is none, is the run's value.
    pub fn finish_call(calls: &mut Vec<HeapFrame>, frame: HeapFrame, flow: StmtFlow) -> (r: Result<Option<Value>, RuntimeError>)
        ensures
            match function_result(frame.return_kind, flow@, model_list(frame.yielded@), frame.call_span) {
                Err(e) => r matches Err(x) && x@ == e,
                Ok(v) => if old(calls)@.len() == 0 {
                    r matches Ok(Some(x)) && x@ == v
                } else {
                    r matches Ok(None) && frames_model(final(calls)@) == frames_model(old(calls)@).drop_last().push(
                        resume(frames_model(old(calls)@).last(), frame_model(frame), v))
                },
            },
    {
        let HeapFrame { work: _, slots: _, yielded, budget: _, call_span, return_kind, return_to, after } = frame;
        let v = indexed_function_result(return_kind, flow, yielded, call_span)?;
        match pop_frame(calls) {
            None => Ok(Some(v)),
            Some(caller) => {
                let mut caller = caller;
                let ghost vm = v@;
                push_work(&mut caller.work, FrameWork::Expr { work: ExplicitFrames::push_value(v, return_to), after });
                push_frame(calls, caller);
                Ok(None)
            },
        }
    }

    /// One step of the running frame: a step of its work, a call pushing
    /// the callee's frame, or a finished body handing its value down.
    pub fn step_call(evaluator: &mut Evaluator, program: &FullProgram, calls: &mut Vec<HeapFrame>) -> (r: Result<Option<Value>, RuntimeError>)
        requires
            cache_valid(old(evaluator).indexed_function_cache@, *program),
        ensures
            kept(*old(evaluator), *final(evaluator), *program),
            final(evaluator).stream_items@ == old(evaluator).stream_items@,
            match step_frames(*program, frames_model(old(calls)@)) {
                Err(e) => r matches Err(x) && x@ == e,
                Ok(FramesStepModel::Running(fs2)) => r matches Ok(None) && frames_model(final(calls)@) == fs2,
                Ok(FramesStepModel::Finished(v)) => r matches Ok(Some(x)) && x@ == v,
            },
    {
        let ghost fs = frames_model(calls@);
        let mut top = match pop_frame(calls) {
            Some(f) => f,
            None => return Ok(Some(Value::Unit)),
        };
        let ghost t0 = frame_model(top);
        let ghost saved = evaluator.stream_items@;
        std::mem::swap(&mut top.yielded, &mut evaluator.stream_items);
        let engine = ExplicitFrames { budget: top.budget, call_span: top.call_span, producer: top.return_kind == LoweredType::Stream };
        proof {
            lemma_step_calling_name(*program, top.budget as nat, work_view(top.work@), machine_of(top.slots@, evaluator.stream_items@), top.call_span,
                top.return_kind == LoweredType::Stream);
        }
        let r = engine.step(evaluator, program, &mut top.work, &mut top.slots);
        std::mem::swap(&mut top.yielded, &mut evaluator.stream_items);
        match r? {
            FrameStep::Running => {
                push_frame(calls, top);
                Ok(None)
            },
            FrameStep::Suspended => {
                push_frame(calls, top);
                Ok(None)
            },
            FrameStep::Finished(flow) => Self::finish_call(calls, top, flow),
            FrameStep::Calling { name, args, span, next, after } => {
                let budget = top.budget;
                push_frame(calls, top);
                Self::push_resolved_call(evaluator, program, calls, budget, name, args, span, next, after)?;
                Ok(None)
            },
        }
    }

    /// A call whose arguments are evaluated: the function the name names, a
    /// pure one before a procedure, gets a frame above the caller's, with
    /// one unit less of the caller's depth budget.
    pub fn push_resolved_call(
        evaluator: &mut Evaluator,
        program: &FullProgram,
        calls: &mut Vec<HeapFrame>,
        budget: u32,
        name: u32,
        args: Vec<Value>,
        span: Span,
        next: FrameContinuation,
        after: StatementContinuation,
    ) -> (r: Result<(), RuntimeError>)
        requires
            cache_valid(old(evaluator).indexed_function_cache@, *program),
            (name as int) < program.execution.strings@.len(),
        ensures
            kept(*old(evaluator), *final(evaluator), *program),
            final(evaluator).stream_items == old(evaluator).stream_items,
            match named_function(*program, name) {
                None => r matches Err(x) && x@ == unresolved_error(*program, name, span),
                Some(f) => if budget == 0 {
                    r matches Err(x) && x@ == depth_error(span)
                } else {
                    match call_frame(*program, (budget - 1) as nat, f, model_list(args@), span, cont_model(next), after@) {
                        Err(e) => r matches Err(x) && x@ == e,
                        Ok(fr) => r is Ok && frames_model(final(calls)@) == frames_model(old(calls)@).push(fr),
                    }
                },
            },
    {
        let key = crate::ir::LoweredFunctionKey { name: crate::ir::Name { id: name } };
        let f = match evaluator.indexed_function_index(program, key, crate::ir::LoweredFunctionKind::Pure) {
            Some(i) => i,
            None => match evaluator.indexed_function_index(program, key, crate::ir::LoweredFunctionKind::Proc) {
                Some(i) => i,
                None => {
                    let text = program.execution.strings[name as usize].clone();
                    return Err(RuntimeError::new_owned("unresolved-lowered-call", text).with_span(span));
                },
            },
        };
        if budget == 0 {
            return Err(RuntimeError::new("stack-overflow", "indexed evaluation is nested too deeply").with_span(span));
        }
        Self::push_call(calls, program, budget - 1, f, args, span, next, after)
    }

    /// Runs the stack of frames for up to `max_steps` steps, until the
    /// bottom frame gives back its value.
    pub fn run(evaluator: &mut Evaluator, program: &FullProgram, calls: &mut Vec<HeapFrame>, max_steps: u64) -> (r: Result<FramesRun, RuntimeError>)
        requires
            cache_valid(old(evaluator).indexed_function_cache@, *program),
        ensures
            kept(*old(evaluator), *final(evaluator), *program),
            final(evaluator).stream_items@ == old(evaluator).stream_items@,
            match run_frames(*program, frames_model(old(calls)@), max_steps as nat) {
                Err(e) => r matches Err(x) && x@ == e,
                Ok(FramesRunModel::Finished(v)) => r matches Ok(FramesRun::Finished(x)) && x@ == v,
                Ok(FramesRunModel::OutOfSteps(fs)) => r matches Ok(FramesRun::OutOfSteps) && frames_model(final(calls)@) == fs,
            },
    {
        let ghost start = run_frames(*program, frames_model(calls@), max_steps as nat);
        let mut fuel = max_steps;
        loop
            invariant
                kept(*old(evaluator), *evaluator, *program),
                evaluator.stream_items@ == old(evaluator).stream_items@,
                start == run_frames(*program, frames_model(old(calls)@), max_steps as nat),
                start == run_frames(*program, frames_model(calls@), fuel as nat),
            decreases fuel,
        {
            if fuel == 0 {
                return Ok(FramesRun::OutOfSteps);
            }
            match Self::step_call(evaluator, program, calls)? {
                None => {},
                Some(v) => return Ok(FramesRun::Finished(v)),
            }
            fuel = fuel - 1;
        }
    }
}

impl Evaluator {
    /// Runs function `f`'s body on heap frames from the prepared slots
    /// `slots`; the calls it makes run on heap frames too.
    pub fn eval_indexed_with_frame_slots(
        &mut self,
        program: &FullProgram,
        budget: u32,
        f: usize,
        slots: Vec<Value>,
        call_span: Span,
    ) -> (r: Result<Value, RuntimeError>)
        requires
            cache_valid(old(self).indexed_function_cache@, *program),
        ensures
            kept(*old(self), *final(self), *program),
            final(self).stream_items@ == old(self).stream_items@,
            value_outcome(r, heap_body(*program, budget as nat, f as nat, model_list(slots@), call_span)),
    {
        if f >= program.functions.len() {
            return Err(fault_error(call_span));
        }
        let mut calls: Vec<HeapFrame> = Vec::new();
        assert(frames_model(calls@) =~= Seq::<FrameModel>::empty());
        ExplicitFrames::push_call_with_slots(&mut calls, program, budget, f, slots, call_span, FrameContinuation::Return,
            StatementContinuation::Discard)?;
        match ExplicitFrames::run(self, program, &mut calls, MAX_FRAME_STEPS)? {
            FramesRun::Finished(v) => Ok(v),
            FramesRun::OutOfSteps => Err(RuntimeError::new("step-limit", "frame ran out of steps").with_span(call_span)),
        }
    }

    /// Calls function `f` with `args` on heap frames: the call is checked as
    /// a recursive call is, and it, and every call it makes, runs on frames
    /// kept on the heap rather than on the native stack.
    pub fn eval_indexed_with_frames(
        &mut self,
        program: &FullProgram,
        budget: u32,
        f: usize,
        args: Vec<Value>,
        call_span: Span,
    ) -> (r: Result<Value, RuntimeError>)
        requires
            cache_valid(old(self).indexed_function_cache@, *program),
        ensures
            kept(*old(self), *final(self), *program),
            final(self).stream_items@ == old(self).stream_items@,
            value_outcome(r, heap_call(*program, budget as nat, f as nat, model_list(args@), call_span)),
    {
        let mut calls: Vec<HeapFrame> = Vec::new();
        assert(frames_model(calls@) =~= Seq::<FrameModel>::empty());
        ExplicitFrames::push_call(&mut calls, program, budget, f, args, call_span, FrameContinuation::Return, StatementContinuation::Discard)?;
        match ExplicitFrames::run(self, program, &mut calls, MAX_FRAME_STEPS)? {
            FramesRun::Finished(v) => Ok(v),
            FramesRun::OutOfSteps => Err(RuntimeError::new("step-limit", "frame ran out of steps").with_span(call_span)),
        }
    }
}

} // verus!
