//! The stages a live stream pipeline runs serially, one source item at a
//! time, and how they are decoded.
use vstd::prelude::*;
use crate::value::{Span, RuntimeError};
use crate::ir::{FullPayload, FullExecution, FullStageTag, FullTag, BLOCK_LIST};
use crate::decode::{
    indexed_error, indexed_value, indexed_raw, indexed_finish, indexed_decode, is_ir_error,
};
use crate::stage_list::{
    LiveStageList, live_stage_items, stage_list_new, stage_list_push, stage_list_len, stage_list_get,
};
use crate::evaluator::Evaluator;
use crate::runs::span_of;

verus! {

/// A stage of a serial pipeline, with the counters it keeps while running.
#[derive(Clone, Copy, PartialEq, Eq, Structural, Debug)]
pub enum IndexedLiveSerialStage {
    Tee { slot: usize, body: u32 },
    Where { slot: usize, predicate: u32 },
    WhereBlock { slot: usize, body: u32, value: u32 },
    MapItems { slot: usize, value: u32, flat: bool },
    MapBlock { slot: usize, body: u32, value: u32, flat: bool },
    Drop { count_expr: u32, count: usize, seen: usize },
    Enumerate { index: usize },
    Take { count_expr: u32, count: usize },
    Any { slot: usize, predicate: u32, all: bool },
    AnyBlock { slot: usize, body: u32, value: u32, all: bool },
    First,
    Count,
    Collect,
}

pub open spec fn spec_stage_tag(stage: IndexedLiveSerialStage) -> FullStageTag {
    match stage {
        IndexedLiveSerialStage::Tee { .. } => FullStageTag::Tee,
        IndexedLiveSerialStage::Where { .. } => FullStageTag::Where,
        IndexedLiveSerialStage::WhereBlock { .. } => FullStageTag::WhereBlock,
        IndexedLiveSerialStage::MapItems { flat, .. } => if flat { FullStageTag::FlatMap } else { FullStageTag::MapItems },
        IndexedLiveSerialStage::MapBlock { flat, .. } => if flat { FullStageTag::FlatMapBlock } else { FullStageTag::MapBlock },
        IndexedLiveSerialStage::Drop { .. } => FullStageTag::Drop,
        IndexedLiveSerialStage::Enumerate { .. } => FullStageTag::Enumerate,
        IndexedLiveSerialStage::Take { .. } => FullStageTag::Take,
        IndexedLiveSerialStage::Any { all, .. } => if all { FullStageTag::All } else { FullStageTag::Any },
        IndexedLiveSerialStage::AnyBlock { all, .. } => if all { FullStageTag::AllBlock } else { FullStageTag::AnyBlock },
        IndexedLiveSerialStage::First => FullStageTag::First,
        IndexedLiveSerialStage::Count => FullStageTag::Count,
        IndexedLiveSerialStage::Collect => FullStageTag::Collect,
    }
}

impl IndexedLiveSerialStage {
    /// The IR tag this stage was decoded from.
    pub fn tag(self) -> (t: FullStageTag)
        ensures
            t == spec_stage_tag(self),
    {
        match self {
            IndexedLiveSerialStage::Tee { .. } => FullStageTag::Tee,
            IndexedLiveSerialStage::Where { .. } => FullStageTag::Where,
            IndexedLiveSerialStage::WhereBlock { .. } => FullStageTag::WhereBlock,
            IndexedLiveSerialStage::MapItems { flat, .. } => if flat { FullStageTag::FlatMap } else { FullStageTag::MapItems },
            IndexedLiveSerialStage::MapBlock { flat, .. } => if flat { FullStageTag::FlatMapBlock } else { FullStageTag::MapBlock },
            IndexedLiveSerialStage::Drop { .. } => FullStageTag::Drop,
            IndexedLiveSerialStage::Enumerate { .. } => FullStageTag::Enumerate,
            IndexedLiveSerialStage::Take { .. } => FullStageTag::Take,
            IndexedLiveSerialStage::Any { all, .. } => if all { FullStageTag::All } else { FullStageTag::Any },
            IndexedLiveSerialStage::AnyBlock { all, .. } => if all { FullStageTag::AllBlock } else { FullStageTag::AnyBlock },
            IndexedLiveSerialStage::First => FullStageTag::First,
            IndexedLiveSerialStage::Count => FullStageTag::Count,
            IndexedLiveSerialStage::Collect => FullStageTag::Collect,
        }
    }
}

/// The name a stage is traced under.
pub open spec fn spec_stage_name(tag: FullStageTag) -> Seq<char> {
    match tag {
        FullStageTag::Where | FullStageTag::WhereBlock => "where"@,
        FullStageTag::MapItems | FullStageTag::MapBlock => "map"@,
        FullStageTag::FlatMap | FullStageTag::FlatMapBlock => "flat-map"@,
        FullStageTag::Tee => "tee"@,
        FullStageTag::Enumerate => "enumerate"@,
        FullStageTag::Sort => "sort"@,
        FullStageTag::Count => "count"@,
        FullStageTag::Any | FullStageTag::AnyBlock => "any"@,
        FullStageTag::All | FullStageTag::AllBlock => "all"@,
        FullStageTag::Collect => "collect"@,
        FullStageTag::First => "first"@,
        FullStageTag::Take => "take"@,
        FullStageTag::Drop => "drop"@,
        FullStageTag::Last => "last"@,
        FullStageTag::Sum => "sum"@,
        FullStageTag::Min => "min"@,
        FullStageTag::Max => "max"@,
    }
}

impl Evaluator {
    /// The name a stage is traced under.
    pub fn indexed_stage_name(tag: FullStageTag) -> (name: &'static str)
        ensures
            name@ == spec_stage_name(tag),
    {
        match tag {
            FullStageTag::Where | FullStageTag::WhereBlock => "where",
            FullStageTag::MapItems | FullStageTag::MapBlock => "map",
            FullStageTag::FlatMap | FullStageTag::FlatMapBlock => "flat-map",
            FullStageTag::Tee => "tee",
            FullStageTag::Enumerate => "enumerate",
            FullStageTag::Sort => "sort",
            FullStageTag::Count => "count",
            FullStageTag::Any | FullStageTag::AnyBlock => "any",
            FullStageTag::All | FullStageTag::AllBlock => "all",
            FullStageTag::Collect => "collect",
            FullStageTag::First => "first",
            FullStageTag::Take => "take",
            FullStageTag::Drop => "drop",
            FullStageTag::Last => "last",
            FullStageTag::Sum => "sum",
            FullStageTag::Min => "min",
            FullStageTag::Max => "max",
        }
    }
}

/// Whether a stage ends the serial prefix: a bounded or scalar terminal.
pub open spec fn ends_prefix(tag: FullStageTag) -> bool {
    tag == FullStageTag::Take || tag == FullStageTag::Any || tag == FullStageTag::All
        || tag == FullStageTag::AnyBlock || tag == FullStageTag::AllBlock || tag == FullStageTag::First
        || tag == FullStageTag::Count || tag == FullStageTag::Collect
}

/// What a stage payload decodes to: `None` when it is malformed,
/// `Some(None)` for a stage that cannot run serially, and the stage otherwise,
/// with its counters at zero.
pub open spec fn live_stage_of(tag: FullStageTag, w: Seq<u32>) -> Option<Option<IndexedLiveSerialStage>> {
    match tag {
        FullStageTag::Tee => if w.len() == 2 {
            Some(Some(IndexedLiveSerialStage::Tee { slot: w[0] as usize, body: w[1] }))
        } else { None },
        FullStageTag::Where => if w.len() == 2 {
            Some(Some(IndexedLiveSerialStage::Where { slot: w[0] as usize, predicate: w[1] }))
        } else { None },
        FullStageTag::WhereBlock => if w.len() == 3 {
            Some(Some(IndexedLiveSerialStage::WhereBlock { slot: w[0] as usize, body: w[1], value: w[2] }))
        } else { None },
        FullStageTag::MapItems | FullStageTag::FlatMap => if w.len() == 2 {
            Some(Some(IndexedLiveSerialStage::MapItems { slot: w[0] as usize, value: w[1], flat: tag == FullStageTag::FlatMap }))
        } else { None },
        FullStageTag::MapBlock | FullStageTag::FlatMapBlock => if w.len() == 3 {
            Some(Some(IndexedLiveSerialStage::MapBlock {
                slot: w[0] as usize, body: w[1], value: w[2], flat: tag == FullStageTag::FlatMapBlock,
            }))
        } else { None },
        FullStageTag::Drop => if w.len() == 1 {
            Some(Some(IndexedLiveSerialStage::Drop { count_expr: w[0], count: 0, seen: 0 }))
        } else { None },
        FullStageTag::Enumerate => if w.len() == 0 {
            Some(Some(IndexedLiveSerialStage::Enumerate { index: 0 }))
        } else { None },
        FullStageTag::Take => if w.len() == 1 {
            Some(Some(IndexedLiveSerialStage::Take { count_expr: w[0], count: 0 }))
        } else { None },
        FullStageTag::Any | FullStageTag::All => if w.len() == 2 {
            Some(Some(IndexedLiveSerialStage::Any { slot: w[0] as usize, predicate: w[1], all: tag == FullStageTag::All }))
        } else { None },
        FullStageTag::AnyBlock | FullStageTag::AllBlock => if w.len() == 3 {
            Some(Some(IndexedLiveSerialStage::AnyBlock {
                slot: w[0] as usize, body: w[1], value: w[2], all: tag == FullStageTag::AllBlock,
            }))
        } else { None },
        FullStageTag::First => if w.len() == 0 { Some(Some(IndexedLiveSerialStage::First)) } else { None },
        FullStageTag::Count => if w.len() == 0 { Some(Some(IndexedLiveSerialStage::Count)) } else { None },
        FullStageTag::Collect => if w.len() == 0 { Some(Some(IndexedLiveSerialStage::Collect)) } else { None },
        _ => Some(None),
    }
}

/// Reads exactly `n` words: the payload must hold no more and no fewer.
pub fn indexed_exact_words(payload: FullPayload, n: usize, span: Span) -> (r: Result<Vec<u32>, RuntimeError>)
    requires
        payload.wf(),
    ensures
        match r {
            Ok(ws) => payload.rest().len() == n && ws@ == payload.rest(),
            Err(e) => payload.rest().len() != n && is_ir_error(e@, span),
        },
{
    let mut cursor = payload;
    let mut ws: Vec<u32> = Vec::new();
    let mut i: usize = 0;
    while i < n
        invariant
            cursor.wf(),
            i <= n,
            i <= payload.rest().len(),
            cursor.rest() == payload.rest().skip(i as int),
            ws@ == payload.rest().take(i as int),
        decreases n - i,
    {
        let w = indexed_raw(&mut cursor, span)?;
        ws.push(w);
        i = i + 1;
        assert(ws@ =~= payload.rest().take(i as int));
        assert(cursor.rest() =~= payload.rest().skip(i as int));
    }
    indexed_finish(cursor, span)?;
    assert(ws@ =~= payload.rest());
    Ok(ws)
}

/// Decodes one stage payload.
pub fn decode_live_stage(tag: FullStageTag, payload: FullPayload, span: Span) -> (r: Result<Option<IndexedLiveSerialStage>, RuntimeError>)
    requires
        payload.wf(),
    ensures
        match r {
            Ok(s) => live_stage_of(tag, payload.rest()) == Some(s),
            Err(e) => live_stage_of(tag, payload.rest()) is None && is_ir_error(e@, span),
        },
{
    match tag {
        FullStageTag::Tee => {
            let ws = indexed_exact_words(payload, 2, span)?;
            Ok(Some(IndexedLiveSerialStage::Tee { slot: ws[0] as usize, body: ws[1] }))
        },
        FullStageTag::Where => {
            let ws = indexed_exact_words(payload, 2, span)?;
            Ok(Some(IndexedLiveSerialStage::Where { slot: ws[0] as usize, predicate: ws[1] }))
        },
        FullStageTag::WhereBlock => {
            let ws = indexed_exact_words(payload, 3, span)?;
            Ok(Some(IndexedLiveSerialStage::WhereBlock { slot: ws[0] as usize, body: ws[1], value: ws[2] }))
        },
        FullStageTag::MapItems | FullStageTag::FlatMap => {
            let ws = indexed_exact_words(payload, 2, span)?;
            Ok(Some(IndexedLiveSerialStage::MapItems { slot: ws[0] as usize, value: ws[1], flat: tag == FullStageTag::FlatMap }))
        },
        FullStageTag::MapBlock | FullStageTag::FlatMapBlock => {
            let ws = indexed_exact_words(payload, 3, span)?;
            Ok(Some(IndexedLiveSerialStage::MapBlock {
                slot: ws[0] as usize, body: ws[1], value: ws[2], flat: tag == FullStageTag::FlatMapBlock,
            }))
        },
        FullStageTag::Drop => {
            let ws = indexed_exact_words(payload, 1, span)?;
            Ok(Some(IndexedLiveSerialStage::Drop { count_expr: ws[0], count: 0, seen: 0 }))
        },
        FullStageTag::Enumerate => {
            indexed_exact_words(payload, 0, span)?;
            Ok(Some(IndexedLiveSerialStage::Enumerate { index: 0 }))
        },
        FullStageTag::Take => {
            let ws = indexed_exact_words(payload, 1, span)?;
            Ok(Some(IndexedLiveSerialStage::Take { count_expr: ws[0], count: 0 }))
        },
        FullStageTag::Any | FullStageTag::All => {
            let ws = indexed_exact_words(payload, 2, span)?;
            Ok(Some(IndexedLiveSerialStage::Any { slot: ws[0] as usize, predicate: ws[1], all: tag == FullStageTag::All }))
        },
        FullStageTag::AnyBlock | FullStageTag::AllBlock => {
            let ws = indexed_exact_words(payload, 3, span)?;
            Ok(Some(IndexedLiveSerialStage::AnyBlock {
                slot: ws[0] as usize, body: ws[1], value: ws[2], all: tag == FullStageTag::AllBlock,
            }))
        },
        FullStageTag::First => {
            indexed_exact_words(payload, 0, span)?;
            Ok(Some(IndexedLiveSerialStage::First))
        },
        FullStageTag::Count => {
            indexed_exact_words(payload, 0, span)?;
            Ok(Some(IndexedLiveSerialStage::Count))
        },
        FullStageTag::Collect => {
            indexed_exact_words(payload, 0, span)?;
            Ok(Some(IndexedLiveSerialStage::Collect))
        },
        _ => Ok(None),
    }
}

/// The serial prefix read from the stage ids in `w`, having decoded `acc`
/// already with `remaining` ids left: decoding stops at the first stage that
/// cannot run serially and just after the first stage that ends a prefix.
pub open spec fn serial_prefix_from(
    execution: &FullExecution,
    w: Seq<u32>,
    remaining: nat,
    acc: Seq<IndexedLiveSerialStage>,
) -> Option<Seq<IndexedLiveSerialStage>>
    decreases remaining,
{
    if remaining == 0 {
        Some(acc)
    } else if w.len() == 0 || w[0] as int >= execution.stages@.len() {
        None
    } else {
        let stage = execution.stages@[w[0] as int];
        match live_stage_of(stage.tag, stage.words@) {
            None => None,
            Some(None) => Some(acc),
            Some(Some(s)) => if ends_prefix(stage.tag) {
                Some(acc.push(s))
            } else {
                serial_prefix_from(execution, w.drop_first(), (remaining - 1) as nat, acc.push(s))
            },
        }
    }
}

/// Decodes the stages of a pipeline that can run serially, in order.
pub fn decode_serial_prefix(
    execution: &FullExecution,
    stages: FullPayload,
    stage_count: usize,
    span: Span,
) -> (r: Result<LiveStageList, RuntimeError>)
    requires
        stages.wf(),
    ensures
        match r {
            Ok(v) => serial_prefix_from(execution, stages.rest(), stage_count as nat, Seq::empty())
                == Some(live_stage_items(v)),
            Err(e) => serial_prefix_from(execution, stages.rest(), stage_count as nat, Seq::empty()) is None
                && e@.kind == "indexed-ir"@ && e@.span == Some(span),
        },
{
    let mut cursor = stages;
    let mut prefix = stage_list_new();
    let mut i: usize = 0;
    while i < stage_count
        invariant
            cursor.wf(),
            i <= stage_count,
            live_stage_items(prefix).len() == i,
            serial_prefix_from(execution, stages.rest(), stage_count as nat, Seq::empty())
                == serial_prefix_from(execution, cursor.rest(), (stage_count - i) as nat, live_stage_items(prefix)),
        decreases stage_count - i,
    {
        let stage = indexed_raw(&mut cursor, span)?;
        let (tag, payload) = match execution.stage_id(stage) {
            Ok(x) => x,
            Err(error) => return Err(indexed_error(error, span)),
        };
        let decoded = match decode_live_stage(tag, payload, span)? {
            Some(s) => s,
            None => return Ok(prefix),
        };
        stage_list_push(&mut prefix, decoded);
        if tag == FullStageTag::Take || tag == FullStageTag::Any || tag == FullStageTag::All
            || tag == FullStageTag::AnyBlock || tag == FullStageTag::AllBlock || tag == FullStageTag::First
            || tag == FullStageTag::Count || tag == FullStageTag::Collect
        {
            return Ok(prefix);
        }
        i = i + 1;
    }
    Ok(prefix)
}

} // verus!

verus! {

/// Whether a stage consumes the whole stream into one value.
pub open spec fn is_scalar_terminal(s: IndexedLiveSerialStage) -> bool {
    match s {
        IndexedLiveSerialStage::Any { .. } | IndexedLiveSerialStage::AnyBlock { .. }
        | IndexedLiveSerialStage::First | IndexedLiveSerialStage::Count
        | IndexedLiveSerialStage::Collect => true,
        _ => false,
    }
}

/// What `indexed_for_pipeline_input` finds at `instruction`: `None` where the
/// IR is malformed; `Some(None)` where the instruction is no pipeline, or its
/// stages do not all run serially, or it ends in a scalar terminal; and
/// otherwise the input instruction, the pipeline's span and its stages.
pub open spec fn for_pipeline_input_of(
    execution: &FullExecution,
    instruction: u32,
) -> Option<Option<(u32, Span, Seq<IndexedLiveSerialStage>)>> {
    if instruction as int >= execution.instructions@.len() {
        None
    } else {
        let ins = execution.instructions@[instruction as int];
        let w = ins.words@;
        if ins.tag != FullTag::ExprPipeline {
            Some(None)
        } else if w.len() != 5 || !execution.block_ok(w[1], BLOCK_LIST) {
            None
        } else {
            let b = execution.blocks@[w[1] as int].words@;
            if b.len() == 0 {
                None
            } else {
                match serial_prefix_from(execution, b.drop_first(), b[0] as nat, Seq::empty()) {
                    None => None,
                    Some(stages) => if stages.len() != b[0] || stages.len() == 0
                        || is_scalar_terminal(stages.last()) {
                        Some(None)
                    } else {
                        Some(Some((w[0], span_of(w.skip(2)), stages)))
                    },
                }
            }
        }
    }
}

/// The pipeline a `for` loop can take rows from directly: only a pipeline
/// whose stages all run serially and produce another sequence qualifies.
pub fn indexed_for_pipeline_input(
    execution: &FullExecution,
    instruction: u32,
    call_span: Span,
) -> (r: Result<Option<(u32, Span, LiveStageList)>, RuntimeError>)
    ensures
        match r {
            Ok(None) => for_pipeline_input_of(execution, instruction) == Some(
                None::<(u32, Span, Seq<IndexedLiveSerialStage>)>),
            Ok(Some((input, span, stages))) => for_pipeline_input_of(execution, instruction)
                == Some(Some((input, span, live_stage_items(stages)))),
            Err(e) => for_pipeline_input_of(execution, instruction) is None && e@.kind == "indexed-ir"@,
        },
{
    let (tag, mut payload) = indexed_value(execution.instruction_id(instruction), call_span)?;
    if tag != FullTag::ExprPipeline {
        return Ok(None);
    }
    let ghost w = payload.rest();
    let input = indexed_raw(&mut payload, call_span)?;
    let (_, mut stages) = match execution.block(&mut payload, BLOCK_LIST) {
        Ok(x) => x,
        Err(error) => return Err(indexed_error(error, call_span)),
    };
    let ghost b = stages.rest();
    let stage_count = indexed_raw(&mut stages, call_span)? as usize;
    assert(payload.rest() =~= w.skip(2));
    let span = indexed_decode::<Span>(&mut payload, execution, call_span)?;
    assert(w.skip(2).take(3) =~= w.skip(2).take(3));
    indexed_finish(payload, call_span)?;
    assert(w.len() == 5);
    let decoded = decode_serial_prefix(execution, stages, stage_count, span)?;
    let n = stage_list_len(&decoded);
    if n != stage_count || n == 0 {
        return Ok(None);
    }
    let last = stage_list_get(&decoded, n - 1);
    match last {
        IndexedLiveSerialStage::Any { .. } | IndexedLiveSerialStage::AnyBlock { .. }
        | IndexedLiveSerialStage::First | IndexedLiveSerialStage::Count
        | IndexedLiveSerialStage::Collect => Ok(None),
        _ => Ok(Some((input, span, decoded))),
    }
}

} // verus!
