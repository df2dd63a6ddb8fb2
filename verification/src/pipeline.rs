//! The serial pipeline: the stages of a pipeline over a live stream run on
//! each source item before the next one is pulled, so that a bounded stage
//! stops the pulling as soon as it has what it needs.
//!
//! A row runs through the stages depth first: a flat-map stage hands each of
//! its rows on in turn before the next source item is pulled. Rows that
//! reach the end of the pipeline, or a `take` or `collect` stage, wait in a
//! ready queue until they are handed out.
use vstd::prelude::*;
use vstd::string::*;
use crate::value::{
    Value, ValueModel, StreamValue, ErrorValue, Span, RuntimeError, ErrorModel, err_model, model_list,
    spec_type_name, clone_value,
};
use crate::ir::{FullProgram, FullPayload, FullStageTag};
use crate::evaluator::{Evaluator, cache_valid};
use crate::semantics::{Machine, Flow, StmtEnd, set_slot, ev_expr, ev_stmts, type_error, fault};
use crate::direct::ev_bool;
use crate::interp::{machine_of, kept, fault_error, type_error_at, IndexedFlow, StmtFlow};
use crate::blocks::statement_block_of;
use crate::serial::{IndexedLiveSerialStage, spec_stage_name, serial_prefix_from, decode_serial_prefix};
use crate::stage_list::{LiveStageList, live_stage_items, stage_list_len, stage_list_get, stage_list_set};
use crate::text::{decimal, push_decimal};

verus! {

/// The items a pipeline input delivers, first item first, and whether they
/// come from a live source: a list's items; a stream's buffered items and
/// then what its source has still to deliver.
pub open spec fn pipeline_source(v: ValueModel) -> Option<(Seq<ValueModel>, bool)> {
    match v {
        ValueModel::List(items) => Some((items, false)),
        ValueModel::Stream { items, source } => match source {
            Some(rest) => Some((items + rest, true)),
            None => Some((items, false)),
        },
        _ => None,
    }
}

/// The error for a pipeline input that is neither a list nor a stream.
pub open spec fn pipeline_input_error(v: ValueModel, span: Span) -> ErrorModel {
    type_error("pipeline expected List or Stream, found "@ + spec_type_name(v), span)
}

/// The rows a flat-map projection splices in: a list's items, or all that a
/// stream holds and will deliver.
pub open spec fn flat_rows(v: ValueModel, span: Span) -> Result<Seq<ValueModel>, ErrorModel> {
    match v {
        ValueModel::List(items) => Ok(items),
        ValueModel::Stream { items, source } => match source {
            Some(rest) => Ok(items + rest),
            None => Ok(items),
        },
        _ => Err(type_error("flat-map expected List or Stream, found "@ + spec_type_name(v), span)),
    }
}

/// An error raised while projecting source item `index` in stage `stage`:
/// the same kind and span, with the stage and the item named in the message.
pub open spec fn stream_item_error(stage: Seq<char>, index: nat, e: ErrorModel) -> ErrorModel {
    err_model(e.kind, stage + " failed on item "@ + decimal(index) + ": "@ + e.message, e.span)
}

/// The error for a `break` (or else a `continue`) that ends a stage body.
pub open spec fn outside_loop_error(is_break: bool, span: Span) -> ErrorModel {
    if is_break {
        err_model("break-outside-loop"@, "break used outside loop"@, Some(span))
    } else {
        err_model("continue-outside-loop"@, "continue used outside loop"@, Some(span))
    }
}

/// The error value `first` gives for a stream that delivered nothing.
pub open spec fn empty_stream_value() -> ValueModel {
    ValueModel::ResultErr(Box::new(ValueModel::Error {
        kind: "empty-stream"@,
        message: "stream was empty"@,
        family: Seq::empty(),
        variant: Seq::empty(),
        facets: Seq::empty(),
    }))
}

/// The count a `take` or `drop` stage was given: a non-negative integer,
/// held as at most `usize::MAX`.
pub open spec fn stage_count_of(v: ValueModel, tag: FullStageTag, span: Span) -> Result<nat, ErrorModel> {
    match v {
        ValueModel::Int(n) => if n >= 0 {
            Ok(if n as int <= usize::MAX { n as nat } else { usize::MAX as nat })
        } else {
            Err(type_error("`"@ + spec_stage_name(tag) + "` expected a non-negative Int"@, span))
        },
        _ => Err(type_error("`"@ + spec_stage_name(tag) + "` expected a non-negative Int"@, span)),
    }
}

/// A statement block run in a frame whose statements may be any instruction;
/// a stage body is not a stream producer, so it may not yield.
pub open spec fn ev_block(p: FullProgram, b: nat, block: u32, m: Machine, cs: Span) -> Result<(StmtEnd, Machine), ErrorModel> {
    match statement_block_of(&p.execution, block) {
        None => Err(fault(cs)),
        Some(ss) => ev_stmts(p, b, p.execution.instructions@.len() as nat, ss, 0, Seq::empty(), m, cs, false),
    }
}

/// A serial pipeline's state apart from its source: the stages with their
/// counters, the rows ready to hand out, how many source items were pulled,
/// how many rows were counted out against the limit, and the single value a
/// scalar stage settled on.
pub struct SerialCore {
    pub stages: Seq<IndexedLiveSerialStage>,
    pub ready: Seq<ValueModel>,
    pub source_index: nat,
    pub emitted: nat,
    pub limit: nat,
    pub outcome: Option<ValueModel>,
    pub stopped: bool,
}

/// Whether the pipeline takes no more rows: a bounded stage has stopped it,
/// or the limit has been reached.
pub open spec fn halted(c: SerialCore) -> bool {
    c.stopped || c.emitted >= c.limit
}

/// `c` with row `v` handed out and counted.
pub open spec fn emit_row(c: SerialCore, v: ValueModel) -> SerialCore {
    SerialCore { ready: c.ready.push(v), emitted: c.emitted + 1, ..c }
}

/// `c` with stage `k` replaced.
pub open spec fn with_stage(c: SerialCore, k: nat, s: IndexedLiveSerialStage) -> SerialCore {
    SerialCore { stages: c.stages.update(k as int, s), ..c }
}

/// `c` with a scalar outcome settled and the pipeline stopped.
pub open spec fn settle(c: SerialCore, v: ValueModel) -> SerialCore {
    SerialCore { outcome: Some(v), stopped: true, ..c }
}

/// The position of the source item being projected, for error messages.
pub open spec fn current_item(c: SerialCore) -> nat {
    if c.source_index > 0 { (c.source_index - 1) as nat } else { 0 }
}

/// Putting `v` in `slot`, evaluating the predicate `pred` and taking the
/// slot's value back: the value when the predicate holds, nothing when it
/// does not, or the value the predicate exits with.
pub open spec fn spec_select_row(p: FullProgram, b: nat, slot: usize, pred: u32, m: Machine, span: Span, cs: Span)
    -> Result<(Result<Option<ValueModel>, ValueModel>, Machine), ErrorModel>
{
    match ev_bool(p, b, pred, m, span) {
        Err(e) => Err(e),
        Ok((Err(x), m1)) => Ok((Err(x), m1)),
        Ok((Ok(keep), m1)) => if slot >= m1.slots.len() {
            Err(fault(cs))
        } else {
            Ok((Ok(if keep { Some(m1.slots[slot as int]) } else { None }), set_slot(m1, slot as int, ValueModel::Unit)))
        },
    }
}

/// Running a stage body: `Ok(m)` when it ends normally, `Err(Some(x))` when
/// it returns or propagates `x`.
pub open spec fn spec_stage_body(p: FullProgram, b: nat, body: u32, m: Machine, span: Span, cs: Span)
    -> Result<(Option<ValueModel>, Machine), ErrorModel>
{
    match ev_block(p, b, body, m, cs) {
        Err(e) => Err(e),
        Ok((StmtEnd::Done, m1)) => Ok((None, m1)),
        Ok((StmtEnd::Return(x), m1)) => Ok((Some(x), m1)),
        Ok((StmtEnd::Propagate(x), m1)) => Ok((Some(x), m1)),
        Ok((StmtEnd::Break, _)) => Err(outside_loop_error(true, span)),
        Ok((StmtEnd::Continue, _)) => Err(outside_loop_error(false, span)),
    }
}

/// Row `v` entering stage `k` of `n`: what the stages from `k` on make of
/// it. The result holds the new state, the value a body or an expression
/// exits the pipeline with, if any, and the machine.
pub open spec fn pass_row(
    p: FullProgram, b: nat, n: nat, k: nat, c: SerialCore, v: ValueModel, m: Machine, span: Span, cs: Span,
) -> Result<(SerialCore, Option<ValueModel>, Machine), ErrorModel>
    decreases n - k, 0int,
{
    if halted(c) {
        Ok((c, None, m))
    } else if k >= n {
        Ok((emit_row(c, v), None, m))
    } else {
        match c.stages[k as int] {
            IndexedLiveSerialStage::Tee { slot, body } => if slot >= m.slots.len() {
                Err(fault(cs))
            } else {
                match ev_block(p, b, body, set_slot(m, slot as int, v), cs) {
                    Err(e) => Err(e),
                    Ok((end, m1)) => if slot >= m1.slots.len() {
                        Err(fault(cs))
                    } else {
                        let m2 = set_slot(m1, slot as int, ValueModel::Unit);
                        match end {
                            StmtEnd::Return(x) => Ok((c, Some(x), m2)),
                            StmtEnd::Propagate(x) => Ok((c, Some(x), m2)),
                            StmtEnd::Break => Ok((c, Some(ValueModel::Unit), m2)),
                            _ => pass_row(p, b, n, k + 1, c, v, m2, span, cs),
                        }
                    },
                }
            },
            IndexedLiveSerialStage::Where { slot, predicate } => if slot >= m.slots.len() {
                Err(fault(cs))
            } else {
                match spec_select_row(p, b, slot, predicate, set_slot(m, slot as int, v), span, cs) {
                    Err(e) => Err(e),
                    Ok((Err(x), m1)) => Ok((c, Some(x), m1)),
                    Ok((Ok(None), m1)) => Ok((c, None, m1)),
                    Ok((Ok(Some(w)), m1)) => pass_row(p, b, n, k + 1, c, w, m1, span, cs),
                }
            },
            IndexedLiveSerialStage::WhereBlock { slot, body, value } => if slot >= m.slots.len() {
                Err(fault(cs))
            } else {
                match spec_stage_body(p, b, body, set_slot(m, slot as int, v), span, cs) {
                    Err(e) => Err(e),
                    Ok((Some(x), m1)) => Ok((c, Some(x), m1)),
                    Ok((None, m1)) => match spec_select_row(p, b, slot, value, m1, span, cs) {
                        Err(e) => Err(e),
                        Ok((Err(x), m2)) => Ok((c, Some(x), m2)),
                        Ok((Ok(None), m2)) => Ok((c, None, m2)),
                        Ok((Ok(Some(w)), m2)) => pass_row(p, b, n, k + 1, c, w, m2, span, cs),
                    },
                }
            },
            IndexedLiveSerialStage::MapItems { slot, value, flat } => if slot >= m.slots.len() {
                Err(fault(cs))
            } else {
                match ev_expr(p, b, value, set_slot(m, slot as int, v), span) {
                    Err(e) => Err(stream_item_error("map"@, current_item(c), e)),
                    Ok((Flow::Exit(x), m1)) => Ok((c, Some(x), m1)),
                    Ok((Flow::Next(y), m1)) => if slot >= m1.slots.len() {
                        Err(fault(cs))
                    } else {
                        let m2 = set_slot(m1, slot as int, ValueModel::Unit);
                        if flat {
                            match flat_rows(y, span) {
                                Err(e) => Err(e),
                                Ok(rows) => pass_rows(p, b, n, k + 1, c, rows, 0, m2, span, cs),
                            }
                        } else {
                            pass_row(p, b, n, k + 1, c, y, m2, span, cs)
                        }
                    },
                }
            },
            IndexedLiveSerialStage::MapBlock { slot, body, value, flat } => if slot >= m.slots.len() {
                Err(fault(cs))
            } else {
                match spec_stage_body(p, b, body, set_slot(m, slot as int, v), span, cs) {
                    Err(e) => Err(e),
                    Ok((Some(x), m1)) => Ok((c, Some(x), m1)),
                    Ok((None, m1)) => match ev_expr(p, b, value, m1, span) {
                        Err(e) => Err(e),
                        Ok((Flow::Exit(x), m2)) => Ok((c, Some(x), m2)),
                        Ok((Flow::Next(y), m2)) => if slot >= m2.slots.len() {
                            Err(fault(cs))
                        } else {
                            let m3 = set_slot(m2, slot as int, ValueModel::Unit);
                            if flat {
                                match flat_rows(y, span) {
                                    Err(e) => Err(e),
                                    Ok(rows) => pass_rows(p, b, n, k + 1, c, rows, 0, m3, span, cs),
                                }
                            } else {
                                pass_row(p, b, n, k + 1, c, y, m3, span, cs)
                            }
                        },
                    },
                }
            },
            IndexedLiveSerialStage::Drop { count_expr, count, seen } => if seen < count {
                Ok((with_stage(c, k, IndexedLiveSerialStage::Drop { count_expr, count, seen: (seen + 1) as usize }), None, m))
            } else {
                pass_row(p, b, n, k + 1, c, v, m, span, cs)
            },
            IndexedLiveSerialStage::Enumerate { index } => {
                let next = if index < usize::MAX { (index + 1) as usize } else { index };
                let row = ValueModel::Record(seq![("index"@, ValueModel::Int(index as i64)), ("value"@, v)]);
                pass_row(p, b, n, k + 1, with_stage(c, k, IndexedLiveSerialStage::Enumerate { index: next }), row, m, span, cs)
            },
            IndexedLiveSerialStage::Take { .. } => {
                let c1 = emit_row(c, v);
                Ok((SerialCore { stopped: c1.emitted >= c1.limit, ..c1 }, None, m))
            },
            IndexedLiveSerialStage::Any { slot, predicate, all } => if slot >= m.slots.len() {
                Err(fault(cs))
            } else {
                match spec_select_row(p, b, slot, predicate, set_slot(m, slot as int, v), span, cs) {
                    Err(e) => Err(e),
                    Ok((Err(x), m1)) => Ok((c, Some(x), m1)),
                    Ok((Ok(kept), m1)) => Ok((if kept.is_some() != all { settle(c, ValueModel::Bool(!all)) } else { c }, None, m1)),
                }
            },
            IndexedLiveSerialStage::AnyBlock { slot, body, value, all } => if slot >= m.slots.len() {
                Err(fault(cs))
            } else {
                match spec_stage_body(p, b, body, set_slot(m, slot as int, v), span, cs) {
                    Err(e) => Err(e),
                    Ok((Some(x), m1)) => Ok((c, Some(x), m1)),
                    Ok((None, m1)) => match spec_select_row(p, b, slot, value, m1, span, cs) {
                        Err(e) => Err(e),
                        Ok((Err(x), m2)) => Ok((c, Some(x), m2)),
                        Ok((Ok(kept), m2)) => Ok((if kept.is_some() != all { settle(c, ValueModel::Bool(!all)) } else { c }, None, m2)),
                    },
                }
            },
            IndexedLiveSerialStage::First => Ok((settle(c, ValueModel::ResultOk(Box::new(v))), None, m)),
            IndexedLiveSerialStage::Count => Ok((SerialCore { emitted: c.emitted + 1, ..c }, None, m)),
            IndexedLiveSerialStage::Collect => Ok((emit_row(c, v), None, m)),
        }
    }
}

/// The rows `rows[i..]` entering stage `k` one after another.
pub open spec fn pass_rows(
    p: FullProgram, b: nat, n: nat, k: nat, c: SerialCore, rows: Seq<ValueModel>, i: nat, m: Machine, span: Span, cs: Span,
) -> Result<(SerialCore, Option<ValueModel>, Machine), ErrorModel>
    decreases n - k, rows.len() - i + 1,
{
    if i >= rows.len() {
        Ok((c, None, m))
    } else {
        match pass_row(p, b, n, k, c, rows[i as int], m, span, cs) {
            Err(e) => Err(e),
            Ok((c1, Some(x), m1)) => Ok((c1, Some(x), m1)),
            Ok((c1, None, m1)) => pass_rows(p, b, n, k, c1, rows, i + 1, m1, span, cs),
        }
    }
}

/// The next row handed out: a ready row if there is one; else, unless the
/// pipeline has halted, the source items `src` are pulled one by one until
/// one of them makes a row ready or the source is empty. The result holds
/// the new state and the source left, and the row, or nothing once the
/// pipeline is done, or the value it exits with.
pub open spec fn serial_next(
    p: FullProgram, b: nat, n: nat, c: SerialCore, src: Seq<ValueModel>, m: Machine, span: Span, cs: Span,
) -> Result<(SerialCore, Seq<ValueModel>, Result<Option<ValueModel>, ValueModel>, Machine), ErrorModel>
    decreases src.len(),
{
    if c.ready.len() > 0 {
        Ok((SerialCore { ready: c.ready.drop_first(), ..c }, src, Ok(Some(c.ready[0])), m))
    } else if halted(c) || src.len() == 0 {
        Ok((c, src, Ok(None), m))
    } else {
        match pass_row(p, b, n, 0, SerialCore { source_index: c.source_index + 1, ..c }, src[0], m, span, cs) {
            Err(e) => Err(e),
            Ok((c1, Some(x), m1)) => Ok((c1, src.drop_first(), Err(x), m1)),
            Ok((c1, None, m1)) => serial_next(p, b, n, c1, src.drop_first(), m1, span, cs),
        }
    }
}

/// Pulling every source item in `src` through the stages until the
/// pipeline halts: the rows made ready pile up in the state.
pub open spec fn serial_drain(
    p: FullProgram, b: nat, n: nat, c: SerialCore, src: Seq<ValueModel>, m: Machine, span: Span, cs: Span,
) -> Result<(SerialCore, Option<ValueModel>, Machine), ErrorModel>
    decreases src.len(),
{
    if halted(c) || src.len() == 0 {
        Ok((c, None, m))
    } else {
        match pass_row(p, b, n, 0, SerialCore { source_index: c.source_index + 1, ..c }, src[0], m, span, cs) {
            Err(e) => Err(e),
            Ok((c1, Some(x), m1)) => Ok((c1, Some(x), m1)),
            Ok((c1, None, m1)) => serial_drain(p, b, n, c1, src.drop_first(), m1, span, cs),
        }
    }
}

/// Evaluating the count expressions of the `drop` and `take` stages from
/// `k` on, in order: the stages with their counts set, or the value a count
/// expression exits with.
pub open spec fn count_stages(
    p: FullProgram, b: nat, stages: Seq<IndexedLiveSerialStage>, k: nat, m: Machine, span: Span,
) -> Result<(Result<Seq<IndexedLiveSerialStage>, ValueModel>, Machine), ErrorModel>
    decreases stages.len() - k,
{
    if k >= stages.len() {
        Ok((Ok(stages), m))
    } else {
        match stages[k as int] {
            IndexedLiveSerialStage::Drop { count_expr, seen, .. } => match ev_expr(p, b, count_expr, m, span) {
                Err(e) => Err(e),
                Ok((Flow::Exit(x), m1)) => Ok((Err(x), m1)),
                Ok((Flow::Next(v), m1)) => match stage_count_of(v, FullStageTag::Drop, span) {
                    Err(e) => Err(e),
                    Ok(count) => count_stages(p, b,
                        stages.update(k as int, IndexedLiveSerialStage::Drop { count_expr, count: count as usize, seen }),
                        k + 1, m1, span),
                },
            },
            IndexedLiveSerialStage::Take { count_expr, .. } => match ev_expr(p, b, count_expr, m, span) {
                Err(e) => Err(e),
                Ok((Flow::Exit(x), m1)) => Ok((Err(x), m1)),
                Ok((Flow::Next(v), m1)) => match stage_count_of(v, FullStageTag::Take, span) {
                    Err(e) => Err(e),
                    Ok(count) => count_stages(p, b,
                        stages.update(k as int, IndexedLiveSerialStage::Take { count_expr, count: count as usize }),
                        k + 1, m1, span),
                },
            },
            _ => count_stages(p, b, stages, k + 1, m, span),
        }
    }
}

/// How many rows a pipeline hands out at most: a final `take`'s count.
pub open spec fn stage_limit(stages: Seq<IndexedLiveSerialStage>) -> nat {
    if stages.len() == 0 {
        usize::MAX as nat
    } else {
        match stages.last() {
            IndexedLiveSerialStage::Take { count, .. } => count as nat,
            _ => usize::MAX as nat,
        }
    }
}

/// The state a pipeline starts in.
pub open spec fn start_core(stages: Seq<IndexedLiveSerialStage>) -> SerialCore {
    SerialCore {
        stages,
        ready: Seq::empty(),
        source_index: 0,
        emitted: 0,
        limit: stage_limit(stages),
        outcome: None,
        stopped: false,
    }
}

/// The value a drained pipeline gives, from its rows `output`: an `any` or
/// `all` stage's settled answer, else `all` itself; `first`'s row, else an
/// empty-stream error; `count`'s tally; otherwise the rows as a list.
pub open spec fn serial_result(c: SerialCore, output: Seq<ValueModel>) -> ValueModel {
    if c.stages.len() == 0 {
        ValueModel::List(output)
    } else {
        match c.stages.last() {
            IndexedLiveSerialStage::Any { all, .. } => match c.outcome {
                Some(v) => v,
                None => ValueModel::Bool(all),
            },
            IndexedLiveSerialStage::AnyBlock { all, .. } => match c.outcome {
                Some(v) => v,
                None => ValueModel::Bool(all),
            },
            IndexedLiveSerialStage::First => match c.outcome {
                Some(v) => v,
                None => empty_stream_value(),
            },
            IndexedLiveSerialStage::Count => ValueModel::Int(c.emitted as i64),
            _ => ValueModel::List(output),
        }
    }
}

} // verus!

verus! {

/// What a run of the stages hands back, against its meaning.
pub open spec fn row_outcome(
    r: Result<Option<Value>, RuntimeError>,
    s: Result<(SerialCore, Option<ValueModel>, Machine), ErrorModel>,
    core: SerialCore,
    slots: Seq<Value>,
    yielded: Seq<Value>,
) -> bool {
    match s {
        Ok((c, x, m)) => r is Ok && core == c && machine_of(slots, yielded) == m && match x {
            Some(v) => r->Ok_0 matches Some(y) && y@ == v,
            None => r->Ok_0 is None,
        },
        Err(e) => r is Err && r->Err_0@ == e,
    }
}

/// An optional value's model.
pub open spec fn opt_model(o: Option<Value>) -> Option<ValueModel> {
    match o {
        Some(v) => Some(v@),
        None => None,
    }
}

/// What a selection hands back, against its meaning.
pub open spec fn select_outcome(
    r: Result<Result<Option<Value>, Value>, RuntimeError>,
    s: Result<(Result<Option<ValueModel>, ValueModel>, Machine), ErrorModel>,
    slots: Seq<Value>,
    yielded: Seq<Value>,
) -> bool {
    match s {
        Ok((Ok(x), m)) => r matches Ok(Ok(y)) && opt_model(y) == x && machine_of(slots, yielded) == m,
        Ok((Err(x), m)) => r matches Ok(Err(y)) && y@ == x && machine_of(slots, yielded) == m,
        Err(e) => r is Err && r->Err_0@ == e,
    }
}

/// What a stage body hands back, against its meaning.
pub open spec fn body_outcome(
    r: Result<Option<Value>, RuntimeError>,
    s: Result<(Option<ValueModel>, Machine), ErrorModel>,
    slots: Seq<Value>,
    yielded: Seq<Value>,
) -> bool {
    match s {
        Ok((x, m)) => r is Ok && opt_model(r->Ok_0) == x && machine_of(slots, yielded) == m,
        Err(e) => r is Err && r->Err_0@ == e,
    }
}

/// The items a pipeline pulls: a list's items, or a live stream's buffered
/// items followed by what its source delivers, with the position of the
/// next one.
pub struct IndexedPipelineItems {
    items: Vec<Value>,
    pos: usize,
    live: bool,
}

impl IndexedPipelineItems {
    pub closed spec fn wf(&self) -> bool {
        &&& self.pos <= self.items@.len()
        &&& self.items@.len() <= usize::MAX
    }

    /// The items still to deliver, first item first.
    pub closed spec fn remaining(&self) -> Seq<ValueModel> {
        model_list(self.items@).skip(self.pos as int)
    }

    /// Whether the items come from a live source.
    pub closed spec fn is_live(&self) -> bool {
        self.live
    }

    /// The items of a pipeline input: fails on a value that is neither a
    /// list nor a stream.
    pub fn new(current: Value, span: Span) -> (r: Result<Self, RuntimeError>)
        ensures
            match pipeline_source(current@) {
                Some((items, live)) => r matches Ok(s) && s.wf() && s.remaining() == items && s.is_live() == live,
                None => r matches Err(e) && e@ == pipeline_input_error(current@, span),
            },
    {
        match current {
            Value::List(items) => {
                let _ = items.len();
                let s = IndexedPipelineItems { items, pos: 0, live: false };
                assert(model_list(s.items@).skip(0) =~= model_list(s.items@));
                Ok(s)
            },
            Value::Stream(stream) => {
                let StreamValue { items, source } = *stream;
                match source {
                    Some(rest) => {
                        let mut all = items;
                        let mut rest = rest;
                        let ghost a = all@;
                        let ghost b = rest@;
                        all.append(&mut rest);
                        let _ = all.len();
                        assert(model_list(all@) =~= model_list(a) + model_list(b));
                        let s = IndexedPipelineItems { items: all, pos: 0, live: true };
                        assert(model_list(s.items@).skip(0) =~= model_list(s.items@));
                        Ok(s)
                    },
                    None => {
                        let _ = items.len();
                        let s = IndexedPipelineItems { items, pos: 0, live: false };
                        assert(model_list(s.items@).skip(0) =~= model_list(s.items@));
                        Ok(s)
                    },
                }
            },
            other => {
                proof { reveal_strlit("pipeline expected List or Stream, found "); }
                let mut message = String::from_str("pipeline expected List or Stream, found ");
                message.append(other.type_label());
                Err(type_error_at(message, span))
            },
        }
    }

    /// The next item, once it has been delivered.
    pub fn next(&mut self) -> (r: Option<Value>)
        requires
            old(self).wf(),
        ensures
            final(self).wf(),
            final(self).is_live() == old(self).is_live(),
            match r {
                Some(v) => old(self).remaining().len() > 0 && v@ == old(self).remaining()[0]
                    && final(self).remaining() == old(self).remaining().drop_first(),
                None => old(self).remaining().len() == 0 && final(self).remaining() == old(self).remaining(),
            },
    {
        if self.pos < self.items.len() {
            let v = clone_value(&self.items[self.pos]);
            let ghost before = self.remaining();
            self.pos = self.pos + 1;
            assert(self.remaining() =~= before.drop_first());
            Some(v)
        } else {
            None
        }
    }

    /// Closes a live source: it delivers nothing more. A list is left as it
    /// is.
    pub fn cancel(&mut self)
        requires
            old(self).wf(),
        ensures
            final(self).wf(),
            final(self).is_live() == old(self).is_live(),
            final(self).remaining() == if old(self).is_live() { Seq::<ValueModel>::empty() } else { old(self).remaining() },
    {
        if self.live {
            self.pos = self.items.len();
            assert(self.remaining() =~= Seq::<ValueModel>::empty());
        }
    }
}

/// The count a `take` or `drop` stage was given.
fn stage_count(v: &Value, tag: FullStageTag, span: Span) -> (r: Result<usize, RuntimeError>)
    ensures
        match stage_count_of(v@, tag, span) {
            Ok(c) => r == Ok::<usize, RuntimeError>(c as usize),
            Err(e) => r matches Err(x) && x@ == e,
        },
{
    match v {
        Value::Int(n) => if *n >= 0 {
            if (*n as u64) <= (usize::MAX as u64) {
                return Ok(*n as usize);
            } else {
                return Ok(usize::MAX);
            }
        },
        _ => {},
    }
    proof {
        reveal_strlit("`");
        reveal_strlit("` expected a non-negative Int");
    }
    let mut message = String::from_str("`");
    message.append(Evaluator::indexed_stage_name(tag));
    message.append("` expected a non-negative Int");
    Err(type_error_at(message, span))
}

/// Puts nothing back into `slot` after evaluating `pred`, and gives the
/// slot's value when the predicate holds.
fn select_row(
    evaluator: &mut Evaluator,
    program: &FullProgram,
    budget: u32,
    slot: usize,
    pred: u32,
    slots: &mut Vec<Value>,
    span: Span,
    cs: Span,
) -> (r: Result<Result<Option<Value>, Value>, RuntimeError>)
    requires
        cache_valid(old(evaluator).indexed_function_cache@, *program),
    ensures
        kept(*old(evaluator), *final(evaluator), *program),
        select_outcome(r, spec_select_row(*program, budget as nat, slot, pred,
            machine_of(old(slots)@, old(evaluator).stream_items@), span, cs), final(slots)@, final(evaluator).stream_items@),
{
    match evaluator.eval_indexed_bool(program, budget, pred, slots, span)? {
        Err(x) => Ok(Err(x)),
        Ok(keep) => {
            if slot >= slots.len() {
                return Err(fault_error(cs));
            }
            let w = clone_value(&slots[slot]);
            let ghost before = model_list(slots@);
            slots.set(slot, Value::Unit);
            assert(model_list(slots@) =~= before.update(slot as int, ValueModel::Unit));
            if keep { Ok(Ok(Some(w))) } else { Ok(Ok(None)) }
        },
    }
}

/// Runs a stage body; a `break` or `continue` that ends it is an error.
fn run_stage_body(
    evaluator: &mut Evaluator,
    program: &FullProgram,
    budget: u32,
    body: u32,
    slots: &mut Vec<Value>,
    span: Span,
    cs: Span,
) -> (r: Result<Option<Value>, RuntimeError>)
    requires
        cache_valid(old(evaluator).indexed_function_cache@, *program),
    ensures
        kept(*old(evaluator), *final(evaluator), *program),
        body_outcome(r, spec_stage_body(*program, budget as nat, body,
            machine_of(old(slots)@, old(evaluator).stream_items@), span, cs), final(slots)@, final(evaluator).stream_items@),
{
    let bound = program.execution.instructions.len();
    match evaluator.eval_indexed_statement_block(program, budget, bound, body, slots, cs, false)? {
        StmtFlow::Done => Ok(None),
        StmtFlow::Return(x) => Ok(Some(x)),
        StmtFlow::Propagate(x) => Ok(Some(x)),
        StmtFlow::Break => Err(RuntimeError::new("break-outside-loop", "break used outside loop").with_span(span)),
        StmtFlow::Continue => Err(RuntimeError::new("continue-outside-loop", "continue used outside loop").with_span(span)),
    }
}

/// Puts `v` into `slot`.
fn put_slot(slots: &mut Vec<Value>, slot: usize, v: Value)
    requires
        slot < old(slots)@.len(),
    ensures
        model_list(final(slots)@) == model_list(old(slots)@).update(slot as int, v@),
{
    let ghost before = model_list(slots@);
    slots.set(slot, v);
    assert(model_list(slots@) =~= before.update(slot as int, v@));
}

/// An error raised while projecting a source item, with the stage and the
/// item's position named.
fn stream_item_runtime_error(stage: &str, index: usize, error: RuntimeError) -> (e: RuntimeError)
    ensures
        e@ == stream_item_error(stage@, index as nat, error@),
{
    proof {
        reveal_strlit(" failed on item ");
        reveal_strlit(": ");
    }
    let mut message = String::from_str(stage);
    message.append(" failed on item ");
    push_decimal(&mut message, index as u64);
    message.append(": ");
    message.append(error.message.as_str());
    RuntimeError { kind: error.kind, message, span: error.span }
}

impl Evaluator {
    /// The rows a flat-map projection splices in: a list's items, or all
    /// that a stream holds and will deliver.
    pub fn lowered_flat_map_rows(&mut self, value: Value, span: Span) -> (r: Result<Vec<Value>, RuntimeError>)
        ensures
            *final(self) == *old(self),
            match flat_rows(value@, span) {
                Ok(rows) => r matches Ok(v) && model_list(v@) == rows,
                Err(e) => r matches Err(x) && x@ == e,
            },
    {
        match value {
            Value::List(values) => Ok(values),
            Value::Stream(stream) => {
                let StreamValue { items, source } = *stream;
                match source {
                    Some(rest) => {
                        let mut all = items;
                        let mut rest = rest;
                        let ghost a = all@;
                        let ghost b = rest@;
                        all.append(&mut rest);
                        assert(model_list(all@) =~= model_list(a) + model_list(b));
                        Ok(all)
                    },
                    None => Ok(items),
                }
            },
            other => {
                proof { reveal_strlit("flat-map expected List or Stream, found "); }
                let mut message = String::from_str("flat-map expected List or Stream, found ");
                message.append(other.type_label());
                Err(type_error_at(message, span))
            },
        }
    }
}

} // verus!

verus! {

/// A serial pipeline between pulls: its source, its stages with their
/// counters, the rows ready to hand out, and its tallies.
pub struct IndexedSerialPipeline {
    items: IndexedPipelineItems,
    stages: LiveStageList,
    ready: Vec<Value>,
    source_index: usize,
    emitted: usize,
    limit: usize,
    outcome: Option<Value>,
    stopped: bool,
    finished: bool,
    span: Span,
    call_span: Span,
}

impl IndexedSerialPipeline {
    pub closed spec fn wf(&self) -> bool {
        &&& self.items.wf()
        &&& self.source_index + self.items.remaining().len() <= usize::MAX
        &&& self.ready@.len() <= self.emitted
    }

    /// The running state, apart from the source.
    pub closed spec fn state(&self) -> SerialCore {
        SerialCore {
            stages: live_stage_items(self.stages),
            ready: model_list(self.ready@),
            source_index: self.source_index as nat,
            emitted: self.emitted as nat,
            limit: self.limit as nat,
            outcome: opt_model(self.outcome),
            stopped: self.stopped,
        }
    }

    /// The source items still to pull.
    pub closed spec fn source(&self) -> Seq<ValueModel> {
        self.items.remaining()
    }

    /// Whether the source is live.
    pub closed spec fn is_live(&self) -> bool {
        self.items.is_live()
    }

    /// Whether the pipeline has been finished.
    pub closed spec fn is_finished(&self) -> bool {
        self.finished
    }

    /// The pipeline's span.
    pub closed spec fn pipeline_span(&self) -> Span {
        self.span
    }

    /// The span of the call the pipeline runs in.
    pub closed spec fn run_span(&self) -> Span {
        self.call_span
    }

    /// What stays the same while rows pass.
    pub closed spec fn same_frame(&self, other: &Self) -> bool {
        &&& self.items == other.items
        &&& self.finished == other.finished
        &&& self.span == other.span
        &&& self.call_span == other.call_span
        &&& live_stage_items(self.stages).len() == live_stage_items(other.stages).len()
    }

    fn emit(&mut self, v: Value)
        requires
            old(self).wf(),
            old(self).emitted < usize::MAX,
        ensures
            final(self).wf(),
            final(self).same_frame(&*old(self)),
            final(self).state() == emit_row(old(self).state(), v@),
    {
        let ghost before = model_list(self.ready@);
        self.ready.push(v);
        self.emitted = self.emitted + 1;
        assert(model_list(self.ready@) =~= before.push(v@));
    }

    fn set_stage(&mut self, k: usize, s: IndexedLiveSerialStage)
        requires
            k < live_stage_items(old(self).stages).len(),
        ensures
            final(self).wf() == old(self).wf(),
            final(self).same_frame(&*old(self)),
            final(self).state() == with_stage(old(self).state(), k as nat, s),
    {
        stage_list_set(&mut self.stages, k, s);
    }

    /// Row `v` entering stage `k` of `n`: runs the stages from `k` on, and
    /// gives the value a body or an expression exits the pipeline with.
    #[verifier::rlimit(40)]
    fn pass_row(
        &mut self,
        evaluator: &mut Evaluator,
        program: &FullProgram,
        budget: u32,
        n: usize,
        k: usize,
        v: Value,
        slots: &mut Vec<Value>,
    ) -> (r: Result<Option<Value>, RuntimeError>)
        requires
            old(self).wf(),
            n == old(self).state().stages.len(),
            cache_valid(old(evaluator).indexed_function_cache@, *program),
        ensures
            final(self).wf(),
            final(self).same_frame(&*old(self)),
            kept(*old(evaluator), *final(evaluator), *program),
            row_outcome(r, pass_row(*program, budget as nat, n as nat, k as nat, old(self).state(), v@,
                machine_of(old(slots)@, old(evaluator).stream_items@), old(self).span, old(self).call_span),
                final(self).state(), final(slots)@, final(evaluator).stream_items@),
        decreases n - k, 0int,
    {
        let span = self.span;
        let cs = self.call_span;
        if self.stopped || self.emitted >= self.limit {
            return Ok(None);
        }
        if k >= n {
            self.emit(v);
            return Ok(None);
        }
        let stage = stage_list_get(&self.stages, k);
        match stage {
            IndexedLiveSerialStage::Tee { slot, body } => {
                if slot >= slots.len() {
                    return Err(fault_error(cs));
                }
                put_slot(slots, slot, clone_value(&v));
                let bound = program.execution.instructions.len();
                let flow = evaluator.eval_indexed_statement_block(program, budget, bound, body, slots, cs, false)?;
                if slot >= slots.len() {
                    return Err(fault_error(cs));
                }
                put_slot(slots, slot, Value::Unit);
                match flow {
                    StmtFlow::Return(x) => Ok(Some(x)),
                    StmtFlow::Propagate(x) => Ok(Some(x)),
                    StmtFlow::Break => Ok(Some(Value::Unit)),
                    _ => self.pass_row(evaluator, program, budget, n, k + 1, v, slots),
                }
            },
            IndexedLiveSerialStage::Where { slot, predicate } => {
                if slot >= slots.len() {
                    return Err(fault_error(cs));
                }
                put_slot(slots, slot, v);
                match select_row(evaluator, program, budget, slot, predicate, slots, span, cs)? {
                    Err(x) => Ok(Some(x)),
                    Ok(None) => Ok(None),
                    Ok(Some(w)) => self.pass_row(evaluator, program, budget, n, k + 1, w, slots),
                }
            },
            IndexedLiveSerialStage::WhereBlock { slot, body, value } => {
                if slot >= slots.len() {
                    return Err(fault_error(cs));
                }
                put_slot(slots, slot, v);
                if let Some(x) = run_stage_body(evaluator, program, budget, body, slots, span, cs)? {
                    return Ok(Some(x));
                }
                match select_row(evaluator, program, budget, slot, value, slots, span, cs)? {
                    Err(x) => Ok(Some(x)),
                    Ok(None) => Ok(None),
                    Ok(Some(w)) => self.pass_row(evaluator, program, budget, n, k + 1, w, slots),
                }
            },
            IndexedLiveSerialStage::MapItems { slot, value, flat } => {
                if slot >= slots.len() {
                    return Err(fault_error(cs));
                }
                put_slot(slots, slot, v);
                let projected = match evaluator.eval_indexed_expr(program, budget, value, slots, span) {
                    Ok(IndexedFlow::Continue(y)) => y,
                    Ok(IndexedFlow::Break(x)) => return Ok(Some(x)),
                    Err(error) => {
                        let index = if self.source_index > 0 { self.source_index - 1 } else { 0 };
                        return Err(stream_item_runtime_error("map", index, error));
                    },
                };
                if slot >= slots.len() {
                    return Err(fault_error(cs));
                }
                put_slot(slots, slot, Value::Unit);
                if flat {
                    let rows = evaluator.lowered_flat_map_rows(projected, span)?;
                    self.pass_rows(evaluator, program, budget, n, k + 1, rows, slots)
                } else {
                    self.pass_row(evaluator, program, budget, n, k + 1, projected, slots)
                }
            },
            IndexedLiveSerialStage::MapBlock { slot, body, value, flat } => {
                if slot >= slots.len() {
                    return Err(fault_error(cs));
                }
                put_slot(slots, slot, v);
                if let Some(x) = run_stage_body(evaluator, program, budget, body, slots, span, cs)? {
                    return Ok(Some(x));
                }
                let projected = match evaluator.eval_indexed_expr(program, budget, value, slots, span)? {
                    IndexedFlow::Continue(y) => y,
                    IndexedFlow::Break(x) => return Ok(Some(x)),
                };
                if slot >= slots.len() {
                    return Err(fault_error(cs));
                }
                put_slot(slots, slot, Value::Unit);
                if flat {
                    let rows = evaluator.lowered_flat_map_rows(projected, span)?;
                    self.pass_rows(evaluator, program, budget, n, k + 1, rows, slots)
                } else {
                    self.pass_row(evaluator, program, budget, n, k + 1, projected, slots)
                }
            },
            IndexedLiveSerialStage::Drop { count_expr, count, seen } => {
                if seen < count {
                    self.set_stage(k, IndexedLiveSerialStage::Drop { count_expr, count, seen: seen + 1 });
                    Ok(None)
                } else {
                    self.pass_row(evaluator, program, budget, n, k + 1, v, slots)
                }
            },
            IndexedLiveSerialStage::Enumerate { index } => {
                let next = if index < usize::MAX { index + 1 } else { index };
                self.set_stage(k, IndexedLiveSerialStage::Enumerate { index: next });
                let mut entries: Vec<(String, Value)> = Vec::new();
                entries.push((String::from_str("index"), Value::Int(index as i64)));
                entries.push((String::from_str("value"), v));
                proof {
                    reveal_strlit("index");
                    reveal_strlit("value");
                }
                let row = Value::Record(entries);
                assert(crate::value::model_entries(entries@) =~= seq![("index"@, ValueModel::Int(index as i64)), ("value"@, v@)]);
                self.pass_row(evaluator, program, budget, n, k + 1, row, slots)
            },
            IndexedLiveSerialStage::Take { .. } => {
                self.emit(v);
                self.stopped = self.emitted >= self.limit;
                Ok(None)
            },
            IndexedLiveSerialStage::Any { slot, predicate, all } => {
                if slot >= slots.len() {
                    return Err(fault_error(cs));
                }
                put_slot(slots, slot, v);
                match select_row(evaluator, program, budget, slot, predicate, slots, span, cs)? {
                    Err(x) => Ok(Some(x)),
                    Ok(kept) => {
                        if kept.is_some() != all {
                            self.outcome = Some(Value::Bool(!all));
                            self.stopped = true;
                        }
                        Ok(None)
                    },
                }
            },
            IndexedLiveSerialStage::AnyBlock { slot, body, value, all } => {
                if slot >= slots.len() {
                    return Err(fault_error(cs));
                }
                put_slot(slots, slot, v);
                if let Some(x) = run_stage_body(evaluator, program, budget, body, slots, span, cs)? {
                    return Ok(Some(x));
                }
                match select_row(evaluator, program, budget, slot, value, slots, span, cs)? {
                    Err(x) => Ok(Some(x)),
                    Ok(kept) => {
                        if kept.is_some() != all {
                            self.outcome = Some(Value::Bool(!all));
                            self.stopped = true;
                        }
                        Ok(None)
                    },
                }
            },
            IndexedLiveSerialStage::First => {
                self.outcome = Some(Value::ResultOk(Box::new(v)));
                self.stopped = true;
                Ok(None)
            },
            IndexedLiveSerialStage::Count => {
                self.emitted = self.emitted + 1;
                Ok(None)
            },
            IndexedLiveSerialStage::Collect => {
                self.emit(v);
                Ok(None)
            },
        }
    }

    /// The rows entering stage `k` one after another.
    fn pass_rows(
        &mut self,
        evaluator: &mut Evaluator,
        program: &FullProgram,
        budget: u32,
        n: usize,
        k: usize,
        rows: Vec<Value>,
        slots: &mut Vec<Value>,
    ) -> (r: Result<Option<Value>, RuntimeError>)
        requires
            old(self).wf(),
            n == old(self).state().stages.len(),
            cache_valid(old(evaluator).indexed_function_cache@, *program),
        ensures
            final(self).wf(),
            final(self).same_frame(&*old(self)),
            kept(*old(evaluator), *final(evaluator), *program),
            row_outcome(r, pass_rows(*program, budget as nat, n as nat, k as nat, old(self).state(), model_list(rows@), 0,
                machine_of(old(slots)@, old(evaluator).stream_items@), old(self).span, old(self).call_span),
                final(self).state(), final(slots)@, final(evaluator).stream_items@),
        decreases n - k, 1int,
    {
        let ghost ms = model_list(rows@);
        let ghost start = pass_rows(*program, budget as nat, n as nat, k as nat, self.state(), ms, 0,
            machine_of(slots@, evaluator.stream_items@), self.span, self.call_span);
        let mut i: usize = 0;
        while i < rows.len()
            invariant
                self.wf(),
                self.same_frame(&*old(self)),
                n == self.state().stages.len(),
                kept(*old(evaluator), *evaluator, *program),
                ms == model_list(rows@),
                i <= rows@.len(),
                start == pass_rows(*program, budget as nat, n as nat, k as nat, old(self).state(), ms, 0,
                    machine_of(old(slots)@, old(evaluator).stream_items@), old(self).span, old(self).call_span),
                start == pass_rows(*program, budget as nat, n as nat, k as nat, self.state(), ms, i as nat,
                    machine_of(slots@, evaluator.stream_items@), self.span, self.call_span),
            decreases rows@.len() - i,
        {
            let row = clone_value(&rows[i]);
            if let Some(x) = self.pass_row(evaluator, program, budget, n, k, row, slots)? {
                return Ok(Some(x));
            }
            i = i + 1;
        }
        Ok(None)
    }
}

} // verus!

verus! {

/// What `next` hands back, against its meaning.
pub open spec fn next_outcome(
    r: Result<Result<Option<Value>, Value>, RuntimeError>,
    s: Result<(SerialCore, Seq<ValueModel>, Result<Option<ValueModel>, ValueModel>, Machine), ErrorModel>,
    after: IndexedSerialPipeline,
    slots: Seq<Value>,
    yielded: Seq<Value>,
) -> bool {
    match s {
        Ok((c, src, res, m)) => {
            &&& after.state() == c
            &&& after.source() == src
            &&& machine_of(slots, yielded) == m
            &&& match res {
                Ok(x) => r matches Ok(Ok(y)) && opt_model(y) == x,
                Err(x) => r matches Ok(Err(y)) && y@ == x,
            }
        },
        Err(e) => r is Err && r->Err_0@ == e,
    }
}

/// What setting a pipeline up hands back, against its meaning.
pub open spec fn setup_outcome(
    r: Result<Result<IndexedSerialPipeline, Value>, RuntimeError>,
    s: Result<(Result<Seq<IndexedLiveSerialStage>, ValueModel>, Machine), ErrorModel>,
    items: Seq<ValueModel>,
    live: bool,
    span: Span,
    call_span: Span,
    slots: Seq<Value>,
    yielded: Seq<Value>,
) -> bool {
    match s {
        Ok((Ok(stages), m)) => {
            &&& r matches Ok(Ok(pl))
            &&& pl.wf()
            &&& pl.state() == start_core(stages)
            &&& pl.source() == items
            &&& pl.is_live() == live
            &&& !pl.is_finished()
            &&& pl.pipeline_span() == span
            &&& pl.run_span() == call_span
            &&& machine_of(slots, yielded) == m
        },
        Ok((Err(x), m)) => r matches Ok(Err(y)) && y@ == x && machine_of(slots, yielded) == m,
        Err(e) => r is Err && r->Err_0@ == e,
    }
}

impl IndexedSerialPipeline {
    /// Sets a pipeline up over `input`: the count expressions of its `drop`
    /// and `take` stages are evaluated first, in order, and a final `take`
    /// bounds how many rows it hands out. Gives the value a count expression
    /// exits with instead, if one does.
    pub fn new(
        evaluator: &mut Evaluator,
        program: &FullProgram,
        budget: u32,
        input: Value,
        stages: LiveStageList,
        slots: &mut Vec<Value>,
        span: Span,
        call_span: Span,
    ) -> (r: Result<Result<Self, Value>, RuntimeError>)
        requires
            cache_valid(old(evaluator).indexed_function_cache@, *program),
        ensures
            kept(*old(evaluator), *final(evaluator), *program),
            match pipeline_source(input@) {
                None => r matches Err(e) && e@ == pipeline_input_error(input@, span)
                    && final(slots)@ == old(slots)@ && final(evaluator).stream_items@ == old(evaluator).stream_items@,
                Some((items, live)) => setup_outcome(r, count_stages(*program, budget as nat, live_stage_items(stages), 0,
                    machine_of(old(slots)@, old(evaluator).stream_items@), span), items, live, span, call_span,
                    final(slots)@, final(evaluator).stream_items@),
            },
    {
        let ghost ps = pipeline_source(input@);
        let items = IndexedPipelineItems::new(input, span)?;
        let ghost st0 = live_stage_items(stages);
        let mut list = stages;
        let ghost start = count_stages(*program, budget as nat, live_stage_items(list), 0,
            machine_of(slots@, evaluator.stream_items@), span);
        let n = stage_list_len(&list);
        let mut k: usize = 0;
        while k < n
            invariant
                ps == pipeline_source(input@),
                ps matches Some((a, l)) && items.remaining() == a && items.is_live() == l,
                items.wf(),
                st0 == live_stage_items(stages),
                start == count_stages(*program, budget as nat, st0, 0,
                    machine_of(old(slots)@, old(evaluator).stream_items@), span),
                n == live_stage_items(list).len(),
                k <= n,
                kept(*old(evaluator), *evaluator, *program),
                start == count_stages(*program, budget as nat, live_stage_items(list), k as nat,
                    machine_of(slots@, evaluator.stream_items@), span),
            decreases n - k,
        {
            match stage_list_get(&list, k) {
                IndexedLiveSerialStage::Drop { count_expr, seen, .. } => {
                    let flow = evaluator.eval_indexed_expr(program, budget, count_expr, slots, span);
                    let v = match flow? {
                        IndexedFlow::Continue(v) => v,
                        IndexedFlow::Break(x) => return Ok(Err(x)),
                    };
                    let count = stage_count(&v, FullStageTag::Drop, span)?;
                    stage_list_set(&mut list, k, IndexedLiveSerialStage::Drop { count_expr, count, seen });
                },
                IndexedLiveSerialStage::Take { count_expr, .. } => {
                    let v = match evaluator.eval_indexed_expr(program, budget, count_expr, slots, span)? {
                        IndexedFlow::Continue(v) => v,
                        IndexedFlow::Break(x) => return Ok(Err(x)),
                    };
                    let count = stage_count(&v, FullStageTag::Take, span)?;
                    stage_list_set(&mut list, k, IndexedLiveSerialStage::Take { count_expr, count });
                },
                _ => {},
            }
            k = k + 1;
        }
        let limit = if n > 0 {
            match stage_list_get(&list, n - 1) {
                IndexedLiveSerialStage::Take { count, .. } => count,
                _ => usize::MAX,
            }
        } else {
            usize::MAX
        };
        let pipeline = IndexedSerialPipeline {
            items,
            stages: list,
            ready: Vec::new(),
            source_index: 0,
            emitted: 0,
            limit,
            outcome: None,
            stopped: false,
            finished: false,
            span,
            call_span,
        };
        assert(model_list(pipeline.ready@) =~= Seq::<ValueModel>::empty());
        Ok(Ok(pipeline))
    }

    /// The next row: a ready row if there is one; else, unless a bounded
    /// stage has stopped the pipeline or its limit is reached, source items
    /// are pulled and run through the stages until one makes a row ready or
    /// the source is empty. Gives nothing once the pipeline is done, or the
    /// value a body or an expression exits with.
    pub fn next(
        &mut self,
        evaluator: &mut Evaluator,
        program: &FullProgram,
        budget: u32,
        slots: &mut Vec<Value>,
    ) -> (r: Result<Result<Option<Value>, Value>, RuntimeError>)
        requires
            old(self).wf(),
            cache_valid(old(evaluator).indexed_function_cache@, *program),
        ensures
            final(self).wf(),
            kept(*old(evaluator), *final(evaluator), *program),
            final(self).is_finished() == old(self).is_finished(),
            final(self).is_live() == old(self).is_live(),
            final(self).pipeline_span() == old(self).pipeline_span(),
            final(self).run_span() == old(self).run_span(),
            next_outcome(r, serial_next(*program, budget as nat, old(self).state().stages.len(), old(self).state(),
                old(self).source(), machine_of(old(slots)@, old(evaluator).stream_items@), old(self).pipeline_span(),
                old(self).run_span()), *final(self), final(slots)@, final(evaluator).stream_items@),
    {
        let ghost start = serial_next(*program, budget as nat, self.state().stages.len(), self.state(),
            self.source(), machine_of(slots@, evaluator.stream_items@), self.span, self.call_span);
        let n = stage_list_len(&self.stages);
        loop
            invariant
                self.wf(),
                n == self.state().stages.len(),
                kept(*old(evaluator), *evaluator, *program),
                self.finished == old(self).finished,
                self.items.is_live() == old(self).items.is_live(),
                self.span == old(self).span,
                self.call_span == old(self).call_span,
                start == serial_next(*program, budget as nat, old(self).state().stages.len(), old(self).state(),
                    old(self).source(), machine_of(old(slots)@, old(evaluator).stream_items@), old(self).span,
                    old(self).call_span),
                start == serial_next(*program, budget as nat, n as nat, self.state(), self.source(),
                    machine_of(slots@, evaluator.stream_items@), self.span, self.call_span),
            decreases self.source().len(),
        {
            if self.ready.len() > 0 {
                let ghost before = model_list(self.ready@);
                let v = self.ready.remove(0);
                assert(model_list(self.ready@) =~= before.drop_first());
                return Ok(Ok(Some(v)));
            }
            if self.stopped || self.emitted >= self.limit {
                return Ok(Ok(None));
            }
            let item = match self.items.next() {
                Some(x) => x,
                None => return Ok(Ok(None)),
            };
            self.source_index = self.source_index + 1;
            if let Some(x) = self.pass_row(evaluator, program, budget, n, 0, item, slots)? {
                return Ok(Err(x));
            }
        }
    }

    /// Pulls every source item through the stages until the pipeline halts,
    /// the rows made ready piling up; gives the value a body or an
    /// expression exits with, if one does.
    fn drain(
        &mut self,
        evaluator: &mut Evaluator,
        program: &FullProgram,
        budget: u32,
        slots: &mut Vec<Value>,
    ) -> (r: Result<Option<Value>, RuntimeError>)
        requires
            old(self).wf(),
            cache_valid(old(evaluator).indexed_function_cache@, *program),
        ensures
            final(self).wf(),
            kept(*old(evaluator), *final(evaluator), *program),
            final(self).finished == old(self).finished,
            final(self).items.is_live() == old(self).items.is_live(),
            row_outcome(r, serial_drain(*program, budget as nat, old(self).state().stages.len(), old(self).state(),
                old(self).source(), machine_of(old(slots)@, old(evaluator).stream_items@), old(self).span,
                old(self).call_span), final(self).state(), final(slots)@, final(evaluator).stream_items@),
    {
        let ghost start = serial_drain(*program, budget as nat, self.state().stages.len(), self.state(),
            self.source(), machine_of(slots@, evaluator.stream_items@), self.span, self.call_span);
        let n = stage_list_len(&self.stages);
        loop
            invariant
                self.wf(),
                n == self.state().stages.len(),
                kept(*old(evaluator), *evaluator, *program),
                self.finished == old(self).finished,
                self.items.is_live() == old(self).items.is_live(),
                self.span == old(self).span,
                self.call_span == old(self).call_span,
                start == serial_drain(*program, budget as nat, old(self).state().stages.len(), old(self).state(),
                    old(self).source(), machine_of(old(slots)@, old(evaluator).stream_items@), old(self).span,
                    old(self).call_span),
                start == serial_drain(*program, budget as nat, n as nat, self.state(), self.source(),
                    machine_of(slots@, evaluator.stream_items@), self.span, self.call_span),
            decreases self.source().len(),
        {
            if self.stopped || self.emitted >= self.limit {
                return Ok(None);
            }
            let item = match self.items.next() {
                Some(x) => x,
                None => return Ok(None),
            };
            self.source_index = self.source_index + 1;
            if let Some(x) = self.pass_row(evaluator, program, budget, n, 0, item, slots)? {
                return Ok(Some(x));
            }
        }
    }

    /// Finishes the pipeline once: a live source is closed.
    pub fn finish(&mut self)
        requires
            old(self).wf(),
        ensures
            final(self).wf(),
            final(self).is_finished(),
            final(self).state() == old(self).state(),
            final(self).is_live() == old(self).is_live(),
            final(self).source() == if old(self).is_finished() || !old(self).is_live() {
                old(self).source()
            } else {
                Seq::<ValueModel>::empty()
            },
    {
        if self.finished {
            return;
        }
        self.finished = true;
        self.items.cancel();
    }

    /// The value a drained pipeline gives, from the rows it handed out.
    pub fn into_result(self, output: Vec<Value>) -> (v: Value)
        ensures
            v@ == serial_result(self.state(), model_list(output@)),
    {
        let n = stage_list_len(&self.stages);
        if n == 0 {
            return Value::List(output);
        }
        match stage_list_get(&self.stages, n - 1) {
            IndexedLiveSerialStage::Any { all, .. } | IndexedLiveSerialStage::AnyBlock { all, .. } => match self.outcome {
                Some(v) => v,
                None => Value::Bool(all),
            },
            IndexedLiveSerialStage::First => match self.outcome {
                Some(v) => v,
                None => empty_stream_error_value(),
            },
            IndexedLiveSerialStage::Count => Value::Int(self.emitted as i64),
            _ => Value::List(output),
        }
    }
}

/// The error value `first` gives for a stream that delivered nothing.
pub fn empty_stream_error_value() -> (v: Value)
    ensures
        v@ == empty_stream_value(),
{
    proof {
        reveal_strlit("");
        reveal_strlit("empty-stream");
        reveal_strlit("stream was empty");
    }
    let facets: Vec<String> = Vec::new();
    let e = ErrorValue {
        kind: String::from_str("empty-stream"),
        message: String::from_str("stream was empty"),
        family: String::from_str(""),
        variant: String::from_str(""),
        facets,
    };
    assert(e.family@ =~= Seq::<char>::empty());
    assert(e.variant@ =~= Seq::<char>::empty());
    assert(crate::value::model_strings(e.facets@) =~= Seq::<Seq<char>>::empty());
    assert(e.kind@ == "empty-stream"@);
    assert(e.message@ == "stream was empty"@);
    let inner = Value::Error(Box::new(e));
    assert(inner@ == ValueModel::Error { kind: "empty-stream"@, message: "stream was empty"@, family: Seq::empty(),
        variant: Seq::empty(), facets: Seq::empty() });
    Value::ResultErr(Box::new(inner))
}

} // verus!

verus! {

/// Whether a value is a stream with a live source.
pub open spec fn is_live_stream(v: ValueModel) -> bool {
    v matches ValueModel::Stream { source: Some(_), .. }
}

/// Everything a live stream holds and will deliver.
pub open spec fn live_items(v: ValueModel) -> Seq<ValueModel> {
    match v {
        ValueModel::Stream { items, source: Some(rest) } => items + rest,
        _ => Seq::empty(),
    }
}

/// Running the serial stages `stages` over the source items `src`: the
/// count expressions first, then every source item until the pipeline
/// halts; the value is the pipeline's result over the rows handed out.
pub open spec fn live_prefix_run(
    p: FullProgram, b: nat, stages: Seq<IndexedLiveSerialStage>, src: Seq<ValueModel>, m: Machine, span: Span, cs: Span,
) -> Result<(Flow, Machine), ErrorModel> {
    match count_stages(p, b, stages, 0, m, span) {
        Err(e) => Err(e),
        Ok((Err(x), m1)) => Ok((Flow::Exit(x), m1)),
        Ok((Ok(st), m1)) => match serial_drain(p, b, st.len(), start_core(st), src, m1, span, cs) {
            Err(e) => Err(e),
            Ok((_, Some(x), m2)) => Ok((Flow::Exit(x), m2)),
            Ok((c, None, m2)) => Ok((Flow::Next(serial_result(c, c.ready)), m2)),
        },
    }
}

/// What running a serial prefix hands back, against its meaning.
pub open spec fn prefix_outcome(
    r: Result<Option<(IndexedFlow, usize)>, RuntimeError>,
    s: Result<(Flow, Machine), ErrorModel>,
    consumed: nat,
    slots: Seq<Value>,
    yielded: Seq<Value>,
) -> bool {
    match s {
        Ok((f, m)) => r matches Ok(Some((fl, n))) && fl@ == f && n == consumed && machine_of(slots, yielded) == m,
        Err(e) => r is Err && r->Err_0@ == e,
    }
}

impl IndexedSerialPipeline {
    /// Takes the ready rows out.
    fn take_ready(&mut self) -> (out: Vec<Value>)
        requires
            old(self).wf(),
        ensures
            final(self).wf(),
            model_list(out@) == old(self).state().ready,
            final(self).state() == (SerialCore { ready: Seq::empty(), ..old(self).state() }),
    {
        let mut out: Vec<Value> = Vec::new();
        std::mem::swap(&mut out, &mut self.ready);
        assert(model_list(self.ready@) =~= Seq::<ValueModel>::empty());
        out
    }
}

impl Evaluator {
    /// Runs the stages of a pipeline over a live stream serially, pulling
    /// one source item at a time, as far as its stages can run that way.
    /// Gives nothing when `current` is no live stream or no stage can run
    /// serially; otherwise `current` is consumed and the result is the
    /// pipeline's value, or the value a body or an expression exits with,
    /// together with how many stages were run.
    pub fn eval_indexed_live_serial_prefix(
        &mut self,
        program: &FullProgram,
        budget: u32,
        current: &mut Value,
        stages: FullPayload,
        stage_count: usize,
        slots: &mut Vec<Value>,
        span: Span,
        call_span: Span,
    ) -> (r: Result<Option<(IndexedFlow, usize)>, RuntimeError>)
        requires
            cache_valid(old(self).indexed_function_cache@, *program),
            stages.wf(),
        ensures
            kept(*old(self), *final(self), *program),
            !is_live_stream(old(current)@) ==> (r matches Ok(None) && final(current)@ == old(current)@
                && final(slots)@ == old(slots)@ && final(self).stream_items@ == old(self).stream_items@),
            is_live_stream(old(current)@) ==> match serial_prefix_from(&program.execution, stages.rest(), stage_count as nat, Seq::empty()) {
                None => r matches Err(e) && e@.kind == "indexed-ir"@ && e@.span == Some(span)
                    && final(current)@ == old(current)@ && final(slots)@ == old(slots)@
                    && final(self).stream_items@ == old(self).stream_items@,
                Some(st) => if st.len() == 0 {
                    r matches Ok(None) && final(current)@ == old(current)@ && final(slots)@ == old(slots)@
                        && final(self).stream_items@ == old(self).stream_items@
                } else {
                    &&& final(current)@ == ValueModel::Unit
                    &&& prefix_outcome(r, live_prefix_run(*program, budget as nat, st, live_items(old(current)@),
                        machine_of(old(slots)@, old(self).stream_items@), span, call_span), st.len(),
                        final(slots)@, final(self).stream_items@)
                },
            },
    {
        let live = match &*current {
            Value::Stream(s) => s.source.is_some(),
            _ => false,
        };
        if !live {
            return Ok(None);
        }
        let decoded = decode_serial_prefix(&program.execution, stages, stage_count, span)?;
        let consumed = stage_list_len(&decoded);
        if consumed == 0 {
            return Ok(None);
        }
        let mut input = Value::Unit;
        std::mem::swap(&mut input, current);
        let mut pipeline = match IndexedSerialPipeline::new(self, program, budget, input, decoded, slots, span, call_span)? {
            Ok(pl) => pl,
            Err(x) => return Ok(Some((IndexedFlow::Break(x), consumed))),
        };
        let driven = pipeline.drain(self, program, budget, slots);
        pipeline.finish();
        match driven {
            Err(e) => Err(e),
            Ok(Some(x)) => Ok(Some((IndexedFlow::Break(x), consumed))),
            Ok(None) => {
                let output = pipeline.take_ready();
                Ok(Some((IndexedFlow::Continue(pipeline.into_result(output)), consumed)))
            },
        }
    }
}

} // verus!
