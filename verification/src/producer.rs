//! Resumable script producers. A `stream` function's body is a frame on
//! the frame engine: a `yield` is the only place it stops. A producer owns
//! that frame between pulls, with the items the body has yielded so far;
//! each pull resumes the frame for exactly the work between two yields.
use vstd::prelude::*;
use vstd::string::*;
use crate::value::{Value, ValueModel, Span, RuntimeError, ErrorModel, err_model, spec_type_name, model_list, clone_value};
use crate::ir::{FullProgram, LoweredFunctionKey, LoweredFunctionKind};
use crate::evaluator::{Evaluator, cache_valid};
use crate::semantics::{Machine, StmtEnd, control_error, type_error, fault, ev_stmts};
use crate::interp::{machine_of, kept, fault_error, StmtFlow};
use crate::blocks::statement_block_of;
use crate::frames::{WorkModel, ProducerFrameState, work_view, cut_short, cut_work_short};
use crate::explicit::{
    ExplicitFrames, FrameRun, RunModel, run_steps, run_outcome, sem_work, block_statements, MAX_FRAME_STEPS,
    step_limit_error,
};

verus! {

/// How a producer's body ended: a stream it returned hands out the rest
/// of the output; falling off its end, returning `Unit` or propagating
/// ends the output; `break` or `continue` outside a loop, or returning any
/// other value, is an error.
pub open spec fn producer_end(end: StmtEnd, span: Span) -> Result<Option<Seq<ValueModel>>, ErrorModel> {
    match end {
        StmtEnd::Break => Err(control_error("break outside loop"@, span)),
        StmtEnd::Continue => Err(control_error("continue outside loop"@, span)),
        StmtEnd::Propagate(_) => Ok(None),
        StmtEnd::Done => Ok(None),
        StmtEnd::Return(v) => match v {
            ValueModel::Stream { items, source } => Ok(Some(match source {
                Some(rest) => items + rest,
                None => items,
            })),
            ValueModel::Unit => Ok(None),
            _ => Err(type_error("stream producer returned "@ + spec_type_name(v), span)),
        },
    }
}

/// A producer suspended between pulls: the function it runs, the depth
/// budget its expressions get, its spans, its frame, the items its body
/// has yielded, whether the body has started and whether it has finished,
/// and the items of a stream it handed its output over to.
pub struct ScriptProducer {
    function: LoweredFunctionKey,
    kind: LoweredFunctionKind,
    budget: u32,
    call_span: Span,
    definition_span: Span,
    frame: ProducerFrameState,
    yielded: Vec<Value>,
    started: bool,
    finished: bool,
    delegated: Option<Vec<Value>>,
    delegated_pos: usize,
}

impl ScriptProducer {
    /// What the body still does: how it will end and the machine then,
    /// every item it will still yield appended to those it has yielded.
    pub closed spec fn meaning(&self, p: FullProgram) -> Result<(StmtEnd, Machine), ErrorModel> {
        sem_work(p, self.budget as nat, work_view(self.frame.work@), machine_of(self.frame.slots@, self.yielded@), self.call_span, true)
    }

    /// The items the body has yielded so far.
    pub closed spec fn yielded_items(&self) -> Seq<ValueModel> {
        model_list(self.yielded@)
    }

    /// The frame's remaining work.
    pub closed spec fn frame_work(&self) -> Seq<WorkModel> {
        work_view(self.frame.work@)
    }

    /// The frame's machine: its slots and the items yielded so far.
    pub closed spec fn frame_machine(&self) -> Machine {
        machine_of(self.frame.slots@, self.yielded@)
    }

    pub closed spec fn spec_budget(&self) -> u32 {
        self.budget
    }

    pub closed spec fn spec_call_span(&self) -> Span {
        self.call_span
    }

    pub closed spec fn spec_finished(&self) -> bool {
        self.finished
    }

    pub closed spec fn spec_started(&self) -> bool {
        self.started
    }

    /// The items still to hand out of a stream the output went over to.
    pub closed spec fn delegated_items(&self) -> Option<Seq<ValueModel>> {
        match self.delegated {
            Some(v) => Some(model_list(v@).skip(self.delegated_pos as int)),
            None => None,
        }
    }

    pub closed spec fn wf(&self) -> bool {
        match self.delegated {
            Some(v) => self.delegated_pos <= v@.len(),
            None => true,
        }
    }

    /// Whether the body has ended or been stopped.
    pub fn is_finished(&self) -> (r: bool)
        ensures
            r == self.spec_finished(),
    {
        self.finished
    }
}

impl Evaluator {
    /// Starts a producer for function `f` without running its body: the
    /// slots are bound now, and the body's statements wait for the first
    /// pull. What the producer will do is what the body's statements do.
    pub fn start_script_producer(
        &mut self,
        program: &FullProgram,
        budget: u32,
        f: usize,
        slots: Vec<Value>,
        call_span: Span,
    ) -> (r: Result<ScriptProducer, RuntimeError>)
        ensures
            *final(self) == *old(self),
            match (if (f as int) < program.functions@.len() {
                statement_block_of(&program.execution, program.functions@[f as int].body)
            } else {
                None
            }) {
                None => r matches Err(e) && e@ == fault(call_span),
                Some(ss) => r matches Ok(pr) && pr.wf() && !pr.spec_started() && !pr.spec_finished()
                    && pr.yielded_items() == Seq::<ValueModel>::empty()
                    && pr.delegated_items() is None
                    && pr.meaning(*program) == ev_stmts(*program, budget as nat, program.execution.instructions@.len() as nat,
                        ss, 0, Seq::empty(), Machine { slots: model_list(slots@), yielded: Seq::empty() }, call_span, true),
            },
    {
        if f >= program.functions.len() {
            return Err(fault_error(call_span));
        }
        let func = &program.functions[f];
        let body = match block_statements(program, func.body) {
            Some(v) => v,
            None => return Err(fault_error(call_span)),
        };
        let ghost ss = body@;
        let frame = ProducerFrameState::begin_body(body, slots, program.execution.instructions.len());
        let pr = ScriptProducer {
            function: func.key,
            kind: func.kind,
            budget,
            call_span,
            definition_span: func.definition_span,
            frame,
            yielded: Vec::new(),
            started: false,
            finished: false,
            delegated: None,
            delegated_pos: 0,
        };
        proof {
            let w0 = work_view(pr.frame.work@);
            assert(w0.drop_last() =~= Seq::<WorkModel>::empty());
            assert(model_list(pr.yielded@) =~= Seq::<ValueModel>::empty());
            let m0 = machine_of(pr.frame.slots@, pr.yielded@);
            match ev_stmts(*program, budget as nat, program.execution.instructions@.len() as nat, ss, 0, Seq::empty(), m0, call_span, true) {
                Err(e) => {},
                Ok((e, m1)) => {},
            }
        }
        Ok(pr)
    }

    /// Hands out the next item of a stream the output went over to.
    pub fn pull_delegated(&mut self, producer: &mut ScriptProducer) -> (r: Option<Value>)
        requires
            old(producer).wf(),
        ensures
            *final(self) == *old(self),
            final(producer).wf(),
            final(producer).meaning_frame_same(&*old(producer)),
            match old(producer).delegated_items() {
                Some(items) => if items.len() > 0 {
                    r matches Some(v) && v@ == items[0] && final(producer).delegated_items() == Some(items.drop_first())
                } else {
                    r is None && final(producer).delegated_items() is None
                },
                None => r is None && final(producer).delegated_items() is None,
            },
    {
        let n = match &producer.delegated {
            Some(v) => v.len(),
            None => return None,
        };
        if producer.delegated_pos < n {
            let item = match &producer.delegated {
                Some(v) => clone_value(&v[producer.delegated_pos]),
                None => return None,
            };
            let ghost before = producer.delegated_items();
            producer.delegated_pos = producer.delegated_pos + 1;
            proof {
                let v = producer.delegated->0;
                assert(model_list(v@).skip(producer.delegated_pos as int) =~= before->0.drop_first());
            }
            Some(item)
        } else {
            producer.delegated = None;
            None
        }
    }
}

impl ScriptProducer {
    /// Everything but the handed-over stream is as in `other`.
    pub closed spec fn meaning_frame_same(&self, other: &Self) -> bool {
        &&& self.frame == other.frame
        &&& self.yielded == other.yielded
        &&& self.started == other.started
        &&& self.finished == other.finished
        &&& self.budget == other.budget
        &&& self.call_span == other.call_span
    }
}

} // verus!

verus! {

/// A run that stops at a `yield` has just appended the yielded item.
proof fn lemma_suspended_yielded(p: FullProgram, b: nat, work: Seq<WorkModel>, m: Machine, cs: Span, fuel: nat)
    ensures
        run_steps(p, b, work, m, cs, true, fuel, true) matches Ok(RunModel::Suspended(_, m2)) ==> m2.yielded.len() > 0,
    decreases fuel,
{
    if fuel > 0 {
        match crate::explicit::step(p, b, work, m, cs, true) {
            Ok(crate::explicit::StepModel::Running(w2, m2)) => lemma_suspended_yielded(p, b, w2, m2, cs, (fuel - 1) as nat),
            Ok(crate::explicit::StepModel::Calling { name, args, span, next, after, rest, m: m2 }) =>
                match crate::semantics::named_call(p, b, name, args, span) {
                    Err(e) => {},
                    Ok(r) => lemma_suspended_yielded(p, b,
                        rest.push(WorkModel::Eval { work: crate::continuation::ExprWorkModel::Deliver { value: r, next }, after }),
                        m2, cs, (fuel - 1) as nat),
                },
            _ => {},
        }
    }
}

/// The work a cancelled body is left with: each block keeps only its
/// defers.
pub open spec fn cut_work(w: Seq<WorkModel>) -> Seq<WorkModel> {
    Seq::new(w.len(), |i: int| cut_short(w[i]))
}

/// The output a body's end hands over to, as the producer holds it.
fn producer_end_items(flow: StmtFlow, span: Span) -> (r: Result<Option<Vec<Value>>, RuntimeError>)
    ensures
        match producer_end(flow@, span) {
            Ok(None) => r matches Ok(None),
            Ok(Some(items)) => r matches Ok(Some(v)) && model_list(v@) == items,
            Err(e) => r matches Err(x) && x@ == e,
        },
{
    match flow {
        StmtFlow::Break => Err(RuntimeError::new("control-flow", "break outside loop").with_span(span)),
        StmtFlow::Continue => Err(RuntimeError::new("control-flow", "continue outside loop").with_span(span)),
        StmtFlow::Propagate(_) => Ok(None),
        StmtFlow::Done => Ok(None),
        StmtFlow::Return(v) => match v {
            Value::Stream(stream) => {
                let crate::value::StreamValue { items, source } = *stream;
                match source {
                    Some(rest) => {
                        let mut all = items;
                        let mut rest = rest;
                        let ghost a = all@;
                        let ghost c = rest@;
                        all.append(&mut rest);
                        assert(model_list(all@) =~= model_list(a) + model_list(c));
                        Ok(Some(all))
                    },
                    None => Ok(Some(items)),
                }
            },
            Value::Unit => Ok(None),
            other => {
                proof { reveal_strlit("stream producer returned "); }
                let mut message = String::from_str("stream producer returned ");
                message.append(other.type_label());
                Err(crate::interp::type_error_at(message, span))
            },
        },
    }
}

impl ExplicitFrames {
    /// Runs a producer's frame, with the items it has yielded so far, until
    /// its next `yield` (when `stop_at_yield`) or its end.
    pub fn run_producer(
        &self,
        evaluator: &mut Evaluator,
        program: &FullProgram,
        frame: &mut ProducerFrameState,
        yielded: &mut Vec<Value>,
        stop_at_yield: bool,
    ) -> (r: Result<FrameRun, RuntimeError>)
        requires
            cache_valid(old(evaluator).indexed_function_cache@, *program),
        ensures
            kept(*old(evaluator), *final(evaluator), *program),
            final(evaluator).stream_items@ == old(evaluator).stream_items@,
            run_outcome(r, run_steps(*program, self.budget as nat, work_view(old(frame).work@),
                machine_of(old(frame).slots@, old(yielded)@), self.call_span, stop_at_yield, MAX_FRAME_STEPS as nat, self.producer),
                final(frame).work@, final(frame).slots@, final(yielded)@),
    {
        let mut saved: Vec<Value> = Vec::new();
        std::mem::swap(&mut saved, &mut evaluator.stream_items);
        std::mem::swap(&mut evaluator.stream_items, yielded);
        let run = self.run_steps(evaluator, program, &mut frame.work, &mut frame.slots, stop_at_yield, MAX_FRAME_STEPS);
        std::mem::swap(&mut evaluator.stream_items, yielded);
        std::mem::swap(&mut saved, &mut evaluator.stream_items);
        run
    }

    /// Runs a cancelled producer's frame: its remaining work is cut short
    /// first, so only the defers of its open blocks run.
    pub fn run_cancelled_producer(
        &self,
        evaluator: &mut Evaluator,
        program: &FullProgram,
        frame: &mut ProducerFrameState,
        yielded: &mut Vec<Value>,
        span: Span,
    ) -> (r: Result<(), RuntimeError>)
        requires
            cache_valid(old(evaluator).indexed_function_cache@, *program),
        ensures
            kept(*old(evaluator), *final(evaluator), *program),
            final(evaluator).stream_items@ == old(evaluator).stream_items@,
            match run_steps(*program, self.budget as nat, cut_work(work_view(old(frame).work@)),
                machine_of(old(frame).slots@, old(yielded)@), self.call_span, true, MAX_FRAME_STEPS as nat, self.producer) {
                Err(e) => r matches Err(x) && x@ == e,
                Ok(RunModel::Finished(_, _)) => r is Ok,
                Ok(RunModel::Suspended(_, _)) => r matches Err(x)
                    && x@ == err_model("control-flow"@, "a cancelled producer yielded"@, Some(span)),
                Ok(RunModel::OutOfSteps(_, _)) => r matches Err(x) && x@ == step_limit_error(self.call_span),
            },
    {
        cut_work_short(&mut frame.work);
        assert(work_view(frame.work@) =~= cut_work(work_view(old(frame).work@)));
        match self.run_producer(evaluator, program, frame, yielded, true)? {
            FrameRun::Finished(_) => Ok(()),
            FrameRun::Suspended => Err(RuntimeError::new("control-flow", "a cancelled producer yielded").with_span(span)),
            FrameRun::OutOfSteps => Err(RuntimeError::new("step-limit", "frame ran out of steps").with_span(self.call_span)),
        }
    }
}

impl Evaluator {
    /// The next item of a producer, or nothing when its output has ended.
    /// A producer that has not finished resumes its body until the next
    /// `yield`, whose item it hands out, or until the body ends; pulling
    /// never changes what the body still does. A finished producer only
    /// hands out the stream its body returned, if any.
    pub fn pull_script_producer(
        &mut self,
        program: &FullProgram,
        producer: &mut ScriptProducer,
        span: Span,
    ) -> (r: Result<Option<Value>, RuntimeError>)
        requires
            cache_valid(old(self).indexed_function_cache@, *program),
            old(producer).wf(),
        ensures
            kept(*old(self), *final(self), *program),
            final(self).stream_items@ == old(self).stream_items@,
            final(producer).wf(),
            final(producer).spec_started(),
            old(producer).spec_finished() ==> final(producer).spec_finished()
                && final(producer).meaning(*program) == old(producer).meaning(*program)
                && match old(producer).delegated_items() {
                    Some(items) => if items.len() > 0 {
                        r matches Ok(Some(v)) && v@ == items[0] && final(producer).delegated_items() == Some(items.drop_first())
                    } else {
                        r matches Ok(None) && final(producer).delegated_items() is None
                    },
                    None => r matches Ok(None) && final(producer).delegated_items() is None,
                },
            !old(producer).spec_finished() ==> match run_steps(*program, old(producer).spec_budget() as nat,
                old(producer).frame_work(), old(producer).frame_machine(),
                old(producer).spec_call_span(), true, MAX_FRAME_STEPS as nat, true) {
                Err(e) => r matches Err(x) && x@ == e && final(producer).spec_finished(),
                Ok(RunModel::Suspended(w, m)) => {
                    &&& r matches Ok(Some(v)) && v@ == m.yielded.last()
                    &&& final(producer).yielded_items() == m.yielded
                    &&& !final(producer).spec_finished()
                    &&& final(producer).meaning(*program) == old(producer).meaning(*program)
                },
                Ok(RunModel::Finished(e, m)) => {
                    &&& final(producer).spec_finished()
                    &&& old(producer).meaning(*program) == Ok::<(StmtEnd, Machine), ErrorModel>((e, m))
                    &&& match producer_end(e, old(producer).spec_call_span()) {
                        Err(x) => r matches Err(y) && y@ == x,
                        Ok(None) => r matches Ok(None),
                        Ok(Some(items)) => if items.len() > 0 {
                            r matches Ok(Some(v)) && v@ == items[0] && final(producer).delegated_items() == Some(items.drop_first())
                        } else {
                            r matches Ok(None)
                        },
                    }
                },
                Ok(RunModel::OutOfSteps(_, _)) => r matches Err(x) && x@ == step_limit_error(old(producer).spec_call_span())
                    && final(producer).spec_finished(),
            },
    {
        if producer.finished {
            let item = self.pull_delegated(producer);
            producer.started = true;
            return Ok(item);
        }
        producer.started = true;
        let ghost w0 = work_view(producer.frame.work@);
        let ghost m0 = machine_of(producer.frame.slots@, producer.yielded@);
        proof {
            crate::explicit::lemma_run_keeps_meaning(*program, producer.budget as nat, w0, m0, producer.call_span, true,
                MAX_FRAME_STEPS as nat, true);
            lemma_suspended_yielded(*program, producer.budget as nat, w0, m0, producer.call_span, MAX_FRAME_STEPS as nat);
        }
        let frames = ExplicitFrames { budget: producer.budget, call_span: producer.call_span, producer: true };
        let run = frames.run_producer(self, program, &mut producer.frame, &mut producer.yielded, true);
        match run {
            Err(e) => {
                producer.finished = true;
                Err(e)
            },
            Ok(FrameRun::Suspended) => {
                let n = producer.yielded.len();
                let v = clone_value(&producer.yielded[n - 1]);
                Ok(Some(v))
            },
            Ok(FrameRun::Finished(flow)) => {
                producer.finished = true;
                match producer_end_items(flow, producer.call_span)? {
                    None => Ok(None),
                    Some(items) => {
                        producer.delegated = Some(items);
                        producer.delegated_pos = 0;
                        proof {
                            let v = producer.delegated->0;
                            assert(model_list(v@).skip(0) =~= model_list(v@));
                        }
                        Ok(self.pull_delegated(producer))
                    },
                }
            },
            Ok(FrameRun::OutOfSteps) => {
                producer.finished = true;
                Err(RuntimeError::new("step-limit", "frame ran out of steps").with_span(producer.call_span))
            },
        }
    }

    /// Stops a producer early, once: a body that started runs the defers
    /// its open blocks registered, innermost first, and nothing else.
    pub fn cancel_script_producer(
        &mut self,
        program: &FullProgram,
        producer: &mut ScriptProducer,
        span: Span,
    ) -> (r: Result<(), RuntimeError>)
        requires
            cache_valid(old(self).indexed_function_cache@, *program),
            old(producer).wf(),
        ensures
            kept(*old(self), *final(self), *program),
            final(self).stream_items@ == old(self).stream_items@,
            final(producer).wf(),
            final(producer).spec_finished(),
            (old(producer).spec_finished() || !old(producer).spec_started()) ==> r is Ok
                && final(producer).meaning(*program) == old(producer).meaning(*program),
            (!old(producer).spec_finished() && old(producer).spec_started()) ==> match run_steps(*program,
                old(producer).spec_budget() as nat, cut_work(old(producer).frame_work()),
                old(producer).frame_machine(), old(producer).spec_call_span(), true,
                MAX_FRAME_STEPS as nat, true) {
                Err(e) => r matches Err(x) && x@ == e,
                Ok(RunModel::Finished(_, _)) => r is Ok,
                Ok(RunModel::Suspended(_, _)) => r matches Err(x)
                    && x@ == err_model("control-flow"@, "a cancelled producer yielded"@, Some(span)),
                Ok(RunModel::OutOfSteps(_, _)) => r matches Err(x) && x@ == step_limit_error(old(producer).spec_call_span()),
            },
    {
        if producer.finished {
            return Ok(());
        }
        producer.finished = true;
        if !producer.started {
            return Ok(());
        }
        let frames = ExplicitFrames { budget: producer.budget, call_span: producer.call_span, producer: true };
        frames.run_cancelled_producer(self, program, &mut producer.frame, &mut producer.yielded, span)
    }
}

} // verus!
