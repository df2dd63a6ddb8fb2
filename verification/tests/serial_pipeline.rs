use indexed_run::evaluator::Evaluator;
use indexed_run::interp::IndexedFlow;
use indexed_run::ir::{
    FullBlock, FullExecution, FullInstruction, FullPayload, FullProgram, FullStage, FullStageTag, FullTag, BLOCK_LIST,
};
use indexed_run::pipeline::{IndexedPipelineItems, IndexedSerialPipeline};
use indexed_run::serial::IndexedLiveSerialStage;
use indexed_run::stage_list::{stage_list_new, stage_list_push};
use indexed_run::value::{Span, StreamValue, Value};

const MUL: u32 = 2;
const GT: u32 = 7;

fn span() -> Span {
    Span::new(0, 0, 0)
}

fn ins(tag: FullTag, words: Vec<u32>) -> FullInstruction {
    FullInstruction { tag, words }
}

/// Stage expressions over the item in slot 0, and the stages:
///
/// ```text
/// 0 item   1 1   2 item > 1   3 2   4 item   5 10   6 item * 10   7 [item, item]
/// stages: 0 where item > 1, 1 take 2, 2 map item * 10, 3 flat-map [item, item],
///         4 count, 5 first, 6 any item > 1, 7 all item > 1, 8 enumerate,
///         9 drop 2, 10 collect, 11 flat-map item, 12 sort
/// ```
fn program() -> FullProgram {
    let instructions = vec![
        ins(FullTag::ExprParam, vec![0]),
        ins(FullTag::ExprInt, vec![1, 0]),
        ins(FullTag::ExprBinary, vec![GT, 0, 1, 0, 0, 0]),
        ins(FullTag::ExprInt, vec![2, 0]),
        ins(FullTag::ExprParam, vec![0]),
        ins(FullTag::ExprInt, vec![10, 0]),
        ins(FullTag::ExprBinary, vec![MUL, 4, 5, 0, 0, 0]),
        ins(FullTag::ExprList, vec![0]),
    ];
    let blocks = vec![FullBlock { kind: BLOCK_LIST, words: vec![2, 0, 0] }];
    let stages = vec![
        FullStage { tag: FullStageTag::Where, words: vec![0, 2] },
        FullStage { tag: FullStageTag::Take, words: vec![3] },
        FullStage { tag: FullStageTag::MapItems, words: vec![0, 6] },
        FullStage { tag: FullStageTag::FlatMap, words: vec![0, 7] },
        FullStage { tag: FullStageTag::Count, words: vec![] },
        FullStage { tag: FullStageTag::First, words: vec![] },
        FullStage { tag: FullStageTag::Any, words: vec![0, 2] },
        FullStage { tag: FullStageTag::All, words: vec![0, 2] },
        FullStage { tag: FullStageTag::Enumerate, words: vec![] },
        FullStage { tag: FullStageTag::Drop, words: vec![3] },
        FullStage { tag: FullStageTag::Collect, words: vec![] },
        FullStage { tag: FullStageTag::FlatMap, words: vec![0, 0] },
        FullStage { tag: FullStageTag::Sort, words: vec![0] },
    ];
    FullProgram {
        execution: FullExecution { instructions, blocks, stages, strings: vec![] },
        functions: vec![],
    }
}

fn live(buffered: &[i64], rest: &[i64]) -> Value {
    Value::Stream(Box::new(StreamValue {
        items: buffered.iter().map(|v| Value::Int(*v)).collect(),
        source: Some(rest.iter().map(|v| Value::Int(*v)).collect()),
    }))
}

fn stage_ids(ids: &[u32]) -> FullPayload {
    FullPayload::new(ids.to_vec())
}

fn ints(v: &Value) -> Vec<i64> {
    match v {
        Value::List(items) => items
            .iter()
            .map(|x| match x {
                Value::Int(n) => *n,
                other => panic!("expected an Int, found {other:?}"),
            })
            .collect(),
        other => panic!("expected a list, found {other:?}"),
    }
}

/// Runs the serial prefix of `ids` over a live stream of 1, 2, 3, 4.
fn run(ids: &[u32], input: Value) -> (Option<(IndexedFlow, usize)>, Value) {
    let p = program();
    let mut ev = Evaluator::new(Vec::new(), b"/".to_vec());
    let mut current = input;
    let mut slots = vec![Value::Unit];
    let out = ev
        .eval_indexed_live_serial_prefix(&p, 64, &mut current, stage_ids(ids), ids.len(), &mut slots, span(), span())
        .unwrap();
    (out, current)
}

fn value_of(out: Option<(IndexedFlow, usize)>) -> (Value, usize) {
    match out {
        Some((IndexedFlow::Continue(v), n)) => (v, n),
        other => panic!("expected a value, found {other:?}"),
    }
}

#[test]
fn where_then_take_stops_after_two_rows() {
    let (out, current) = run(&[0, 1], live(&[1], &[2, 3, 4]));
    let (v, consumed) = value_of(out);
    assert_eq!(ints(&v), vec![2, 3]);
    assert_eq!(consumed, 2);
    assert!(matches!(current, Value::Unit));
}

#[test]
fn map_then_collect_projects_every_item() {
    let (out, _) = run(&[2, 10], live(&[], &[1, 2, 3, 4]));
    assert_eq!(ints(&value_of(out).0), vec![10, 20, 30, 40]);
}

#[test]
fn flat_map_rows_each_pass_on_before_the_next_pull() {
    let (out, _) = run(&[3, 1], live(&[7], &[8]));
    let (v, consumed) = value_of(out);
    assert_eq!(ints(&v), vec![7, 7]);
    assert_eq!(consumed, 2);
}

#[test]
fn count_first_any_all() {
    assert!(matches!(value_of(run(&[4], live(&[1], &[2, 3, 4])).0).0, Value::Int(4)));
    assert!(matches!(value_of(run(&[0, 4], live(&[1], &[2, 3, 4])).0).0, Value::Int(3)));
    match value_of(run(&[5], live(&[], &[5, 6])).0).0 {
        Value::ResultOk(inner) => assert!(matches!(*inner, Value::Int(5))),
        other => panic!("expected an Ok, found {other:?}"),
    }
    assert!(matches!(value_of(run(&[6], live(&[1], &[2])).0).0, Value::Bool(true)));
    assert!(matches!(value_of(run(&[7], live(&[1], &[2])).0).0, Value::Bool(false)));
    assert!(matches!(value_of(run(&[7], live(&[], &[5, 6])).0).0, Value::Bool(true)));
    assert!(matches!(value_of(run(&[6], live(&[], &[])).0).0, Value::Bool(false)));
}

#[test]
fn first_of_an_empty_stream_is_an_error_value() {
    match value_of(run(&[5], live(&[], &[])).0).0 {
        Value::ResultErr(inner) => match *inner {
            Value::Error(e) => {
                assert_eq!(e.kind, "empty-stream");
                assert_eq!(e.message, "stream was empty");
            }
            other => panic!("expected an error, found {other:?}"),
        },
        other => panic!("expected an Err, found {other:?}"),
    }
}

#[test]
fn enumerate_and_drop_keep_their_counters() {
    let (out, _) = run(&[8, 10], live(&[4], &[5]));
    match value_of(out).0 {
        Value::List(rows) => {
            assert_eq!(rows.len(), 2);
            for (i, row) in rows.iter().enumerate() {
                match row {
                    Value::Record(entries) => {
                        assert_eq!(entries[0].0, "index");
                        assert!(matches!(entries[0].1, Value::Int(n) if n == i as i64));
                        assert_eq!(entries[1].0, "value");
                        assert!(matches!(entries[1].1, Value::Int(n) if n == 4 + i as i64));
                    }
                    other => panic!("expected a record, found {other:?}"),
                }
            }
        }
        other => panic!("expected a list, found {other:?}"),
    }
    let (out, _) = run(&[9, 10], live(&[1], &[2, 3, 4]));
    assert_eq!(ints(&value_of(out).0), vec![3, 4]);
}

#[test]
fn only_a_live_stream_runs_serially() {
    let input = Value::List(vec![Value::Int(1)]);
    let (out, current) = run(&[0, 1], input);
    assert!(out.is_none());
    assert!(matches!(current, Value::List(_)));
    let (out, current) = run(&[12], live(&[], &[1]));
    assert!(out.is_none());
    assert!(matches!(current, Value::Stream(_)));
}

#[test]
fn a_failing_projection_names_the_item() {
    let p = program();
    let mut ev = Evaluator::new(Vec::new(), b"/".to_vec());
    let mut current = Value::Stream(Box::new(StreamValue {
        items: vec![Value::Int(1)],
        source: Some(vec![Value::Int(i64::MAX)]),
    }));
    let mut slots = vec![Value::Unit];
    let err = ev
        .eval_indexed_live_serial_prefix(&p, 64, &mut current, stage_ids(&[2, 10]), 2, &mut slots, span(), span())
        .unwrap_err();
    assert_eq!(err.kind, "overflow");
    assert_eq!(err.message, "map failed on item 1: integer overflow");
}

#[test]
fn flat_map_needs_a_list_or_a_stream() {
    let p = program();
    let mut ev = Evaluator::new(Vec::new(), b"/".to_vec());
    let mut current = live(&[1], &[]);
    let mut slots = vec![Value::Unit];
    let err = ev
        .eval_indexed_live_serial_prefix(&p, 64, &mut current, stage_ids(&[11]), 1, &mut slots, span(), span())
        .unwrap_err();
    assert_eq!(err.kind, "type-error");
    assert_eq!(err.message, "flat-map expected List or Stream, found Int");
}

#[test]
fn a_pipeline_hands_out_rows_one_by_one_and_stops_at_its_limit() {
    let p = program();
    let mut ev = Evaluator::new(Vec::new(), b"/".to_vec());
    let mut stages = stage_list_new();
    stage_list_push(&mut stages, IndexedLiveSerialStage::MapItems { slot: 0, value: 7, flat: true });
    stage_list_push(&mut stages, IndexedLiveSerialStage::Take { count_expr: 3, count: 0 });
    let mut slots = vec![Value::Unit];
    let input = live(&[1], &[2, 3]);
    let mut pipeline = match IndexedSerialPipeline::new(&mut ev, &p, 64, input, stages, &mut slots, span(), span()).unwrap() {
        Ok(pl) => pl,
        Err(v) => panic!("the count expression exited with {v:?}"),
    };
    let mut rows = Vec::new();
    for _ in 0..5 {
        match pipeline.next(&mut ev, &p, 64, &mut slots).unwrap() {
            Ok(Some(Value::Int(n))) => rows.push(n),
            Ok(None) => break,
            other => panic!("unexpected {other:?}"),
        }
    }
    assert_eq!(rows, vec![1, 1]);
    for _ in 0..3 {
        assert!(matches!(pipeline.next(&mut ev, &p, 64, &mut slots).unwrap(), Ok(None)));
    }
    pipeline.finish();
    pipeline.finish();
    assert!(matches!(pipeline.into_result(Vec::new()), Value::List(v) if v.is_empty()));
}

#[test]
fn a_pipeline_input_must_be_a_list_or_a_stream() {
    let err = IndexedPipelineItems::new(Value::Int(3), span()).err().unwrap();
    assert_eq!(err.kind, "type-error");
    assert_eq!(err.message, "pipeline expected List or Stream, found Int");
    let mut items = IndexedPipelineItems::new(live(&[1], &[2]), span()).ok().unwrap();
    assert!(matches!(items.next(), Some(Value::Int(1))));
    items.cancel();
    assert!(items.next().is_none());
    let mut items = IndexedPipelineItems::new(Value::List(vec![Value::Int(5)]), span()).ok().unwrap();
    items.cancel();
    assert!(matches!(items.next(), Some(Value::Int(5))));
    assert!(items.next().is_none());
}

#[test]
fn negative_counts_are_refused() {
    let mut p = program();
    p.execution.instructions[3] = ins(FullTag::ExprInt, vec![0xffff_ffff, 0xffff_ffff]);
    let mut ev = Evaluator::new(Vec::new(), b"/".to_vec());
    let mut current = live(&[1], &[]);
    let mut slots = vec![Value::Unit];
    let err = ev
        .eval_indexed_live_serial_prefix(&p, 64, &mut current, stage_ids(&[1]), 1, &mut slots, span(), span())
        .unwrap_err();
    assert_eq!(err.kind, "type-error");
    assert_eq!(err.message, "`take` expected a non-negative Int");
}

#[test]
fn flat_rows_of_lists_and_streams() {
    let mut ev = Evaluator::new(Vec::new(), b"/".to_vec());
    let rows = ev.lowered_flat_map_rows(live(&[1], &[2, 3]), span()).unwrap();
    assert_eq!(ints(&Value::List(rows)), vec![1, 2, 3]);
    let rows = ev.lowered_flat_map_rows(Value::List(vec![Value::Int(4)]), span()).unwrap();
    assert_eq!(ints(&Value::List(rows)), vec![4]);
}
