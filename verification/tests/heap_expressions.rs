use indexed_run::evaluator::Evaluator;
use indexed_run::interp::IndexedFlow;
use indexed_run::ir::{
    FullBlock, FullExecution, FullFunction, FullInstruction, FullProgram, FullStage, FullStageTag, FullTag,
    FunctionHeader, LoweredFunctionKey, LoweredFunctionKind, LoweredType, Name, BLOCK_LIST, BLOCK_STATEMENTS,
};
use indexed_run::value::{ErrorValue, Span, Value};

const ADD: u32 = 0;
const AND: u32 = 9;
const OR: u32 = 10;

fn span() -> Span {
    Span::new(0, 0, 0)
}

fn ins(tag: FullTag, words: Vec<u32>) -> FullInstruction {
    FullInstruction { tag, words }
}

fn small(n: u32) -> FullInstruction {
    ins(FullTag::ExprInt, vec![n, 0])
}

fn binary(op: u32, left: u32, right: u32) -> FullInstruction {
    ins(FullTag::ExprBinary, vec![op, left, right, 0, 0, 0])
}

fn list(words: Vec<u32>, count: u32) -> FullBlock {
    let mut all = vec![count];
    all.extend(words);
    FullBlock { kind: BLOCK_LIST, words: all }
}

/// ```text
/// pure double(x: Int) -> Int { return x + x }
/// ```
/// and a set of expressions over it.
fn program() -> FullProgram {
    let instructions = vec![
        small(3),                                         // 0
        small(4),                                         // 1
        binary(ADD, 0, 1),                                // 2: 3 + 4
        ins(FullTag::ExprBool, vec![1]),                  // 3: true
        ins(FullTag::ExprBool, vec![0]),                  // 4: false
        ins(FullTag::ExprNot, vec![0, 0, 0, 0]),          // 5: !3, an error
        binary(OR, 3, 5),                                 // 6: true || !3
        binary(AND, 4, 5),                                // 7: false && !3
        binary(AND, 3, 5),                                // 8: true && !3
        ins(FullTag::ExprList, vec![0]),                  // 9: [3, 4, 3 + 4]
        ins(FullTag::ExprRecord, vec![1]),                // 10: {a: 3, b: 4}
        ins(FullTag::ExprField, vec![10, 1, 0, 0, 0]),    // 11: {..}.b
        ins(FullTag::ExprTry, vec![0, 0, 0, 0]),          // 12: 3?
        ins(FullTag::ExprParam, vec![0]),                 // 13: x
        binary(ADD, 13, 13),                              // 14: x + x
        ins(FullTag::StmtReturn, vec![14]),               // 15
        ins(FullTag::ExprCall, vec![2, 3, 0, 0, 0]),      // 16: double(3 + 4)
        ins(FullTag::ExprPipeline, vec![9, 4, 0, 0, 0]),  // 17: [..] | count
        ins(FullTag::ExprList, vec![5]),                  // 18: [double(..), {..}.b]
        ins(FullTag::ExprField, vec![10, 2, 0, 0, 0]),    // 19: {..}.double, missing
        ins(FullTag::ExprInt, vec![0xffff_ffff, 0x7fff_ffff]), // 20: the largest Int
        binary(ADD, 20, 0),                               // 21: an overflow
        ins(FullTag::ExprOk, vec![0]),                    // 22: Ok(3)
        ins(FullTag::ExprErr, vec![1]),                   // 23: Err(4)
        ins(FullTag::ExprResultFallback, vec![22, 1]),    // 24: Ok(3) ?? 4
        ins(FullTag::ExprResultFallback, vec![23, 1]),    // 25: Err(4) ?? 4
        ins(FullTag::ExprNull, vec![]),                   // 26: null
        ins(FullTag::ExprResultFallback, vec![26, 0]),    // 27: null ?? 3
        ins(FullTag::ExprResultFallback, vec![0, 1]),     // 28: 3 ?? 4
        ins(FullTag::ExprIf, vec![6, 1, 0, 0, 0]),        // 29: if false { 3 } else if true { 7 } else { 4 }
        ins(FullTag::ExprIf, vec![7, 1, 0, 0, 0]),        // 30: if false { 3 } else { 4 }
        ins(FullTag::ExprIf, vec![8, 1, 0, 0, 0]),        // 31: if 3 { 4 } else { 4 }, an error
        ins(FullTag::ExprTry, vec![22, 0, 0, 0]),         // 32: Ok(3)?
        ins(FullTag::ExprTry, vec![23, 0, 0, 0]),         // 33: Err(4)?
        ins(FullTag::ExprList, vec![9]),                  // 34: [Ok(3)?, Err(4)?, 3]
        ins(FullTag::ExprTry, vec![13, 0, 0, 0]),         // 35: x?
        binary(11, 1, 0),                                 // 36: 4 / 3
        binary(12, 1, 0),                                 // 37: 4 % 3
        small(0),                                         // 38: 0
        binary(11, 1, 38),                                // 39: 4 / 0
        binary(12, 13, 38),                               // 40: x % 0
        ins(FullTag::ExprRange, vec![1, 38, 0, 0, 0]),    // 41: 4..0
        ins(FullTag::ExprRange, vec![38, 1, 0, 0, 0]),    // 42: 0..4
        ins(FullTag::ExprRange, vec![3, 1, 0, 0, 0]),     // 43: true..4
        ins(FullTag::ExprRange, vec![1, 3, 0, 0, 0]),     // 44: 4..true
        ins(FullTag::ExprRange, vec![1, 1, 0, 0, 0]),     // 45: 4..4
        ins(FullTag::ExprTag, vec![0, 0]),                // 46: a(3, 4, 3 + 4)
        ins(FullTag::ExprTag, vec![1, 10]),               // 47: b()
        ins(FullTag::ExprTag, vec![2, 9]),                // 48: double(Ok(3)?, Err(4)?, 3)
        ins(FullTag::ExprEmptyMap, vec![]),               // 49: an empty map
        ins(FullTag::ExprStr, vec![1]),                   // 50: "b"
        ins(FullTag::ExprStr, vec![0]),                   // 51: "a"
        ins(FullTag::ExprStr, vec![2]),                   // 52: "double"
        ins(FullTag::ExprList, vec![11]),                 // 53: ["b", "a", "double"]
        ins(FullTag::ExprPipeline, vec![53, 12, 0, 0, 0]), // 54: [..] | sort
        ins(FullTag::ExprPipeline, vec![53, 13, 0, 0, 0]), // 55: [..] | sort --desc true
        ins(FullTag::ExprList, vec![14]),                 // 56: [3, "b"]
        ins(FullTag::ExprPipeline, vec![56, 12, 0, 0, 0]), // 57: [3, "b"] | sort
        ins(FullTag::ExprPipeline, vec![9, 15, 0, 0, 0]),  // 58: [3, 4, 7] | first
        ins(FullTag::ExprPipeline, vec![9, 16, 0, 0, 0]),  // 59: [3, 4, 7] | last
        ins(FullTag::ExprPipeline, vec![9, 17, 0, 0, 0]),  // 60: [3, 4, 7] | sum
        ins(FullTag::ExprPipeline, vec![9, 18, 0, 0, 0]),  // 61: [3, 4, 7] | min
        ins(FullTag::ExprPipeline, vec![9, 19, 0, 0, 0]),  // 62: [3, 4, 7] | max
        ins(FullTag::ExprPipeline, vec![53, 17, 0, 0, 0]), // 63: ["b", "a", "double"] | sum
        ins(FullTag::ExprPipeline, vec![53, 18, 0, 0, 0]), // 64: ["b", "a", "double"] | min
        ins(FullTag::ExprList, vec![10]),                  // 65: []
        ins(FullTag::ExprPipeline, vec![65, 15, 0, 0, 0]), // 66: [] | first
    ];
    let blocks = vec![
        list(vec![0, 1, 2], 3),             // 0: list items
        list(vec![0, 0, 0, 0, 1, 1], 2),    // 1: record entries
        FullBlock { kind: BLOCK_STATEMENTS, words: vec![1, 15] }, // 2: double's body
        list(vec![0, 2], 1),                // 3: call arguments
        list(vec![0], 1),                   // 4: pipeline stages
        list(vec![16, 11], 2),              // 5: list items
        list(vec![4, 0, 3, 2], 2),          // 6: if branches
        list(vec![4, 0], 1),                // 7: if branches
        list(vec![0, 1], 1),                // 8: if branches
        list(vec![32, 33, 0], 3),           // 9: list items
        list(vec![], 0),                    // 10: no items
        list(vec![50, 51, 52], 3),          // 11: list items
        list(vec![1], 1),                   // 12: pipeline stages
        list(vec![2], 1),                   // 13: pipeline stages
        list(vec![0, 50], 2),               // 14: list items
        list(vec![3], 1),                   // 15: first
        list(vec![4], 1),                   // 16: last
        list(vec![5], 1),                   // 17: sum
        list(vec![6], 1),                   // 18: min
        list(vec![7], 1),                   // 19: max
    ];
    let strings = vec!["a".to_string(), "b".to_string(), "double".to_string()];
    FullProgram {
        execution: FullExecution {
            instructions,
            blocks,
            stages: vec![
                FullStage { tag: FullStageTag::Count, words: vec![] },
                FullStage { tag: FullStageTag::Sort, words: vec![0] },
                FullStage { tag: FullStageTag::Sort, words: vec![1, 3] },
                FullStage { tag: FullStageTag::First, words: vec![] },
                FullStage { tag: FullStageTag::Last, words: vec![] },
                FullStage { tag: FullStageTag::Sum, words: vec![] },
                FullStage { tag: FullStageTag::Min, words: vec![] },
                FullStage { tag: FullStageTag::Max, words: vec![] },
            ],
            strings,
        },
        functions: vec![FullFunction {
            key: LoweredFunctionKey { name: Name { id: 2 } },
            kind: LoweredFunctionKind::Pure,
            header: FunctionHeader { param_count: 1, return_kind: LoweredType::Int, slot_count: 1 },
            body: 2,
            definition_span: span(),
        }],
    }
}

fn on_frames(p: &FullProgram, id: u32) -> Result<IndexedFlow, (String, String)> {
    let mut ev = Evaluator::new(Vec::new(), b"/".to_vec());
    let mut slots = vec![Value::Int(5)];
    ev.eval_indexed_expr_on_frames(p, 64, id, &mut slots, span()).map_err(|e| (e.kind, e.message))
}

fn recursive(p: &FullProgram, id: u32) -> Result<IndexedFlow, (String, String)> {
    let mut ev = Evaluator::new(Vec::new(), b"/".to_vec());
    let mut slots = vec![Value::Int(5)];
    ev.eval_indexed_expr(p, 64, id, &mut slots, span()).map_err(|e| (e.kind, e.message))
}

#[test]
fn heap_continuations_give_what_recursion_gives() {
    let p = program();
    for id in 0..67u32 {
        if id == 15 {
            continue;
        }
        assert_eq!(format!("{:?}", on_frames(&p, id)), format!("{:?}", recursive(&p, id)), "instruction {id}");
    }
}

#[test]
fn heap_continuations_compute_compound_values() {
    let p = program();
    assert_eq!(format!("{:?}", on_frames(&p, 2)), "Ok(Continue(Int(7)))");
    assert_eq!(format!("{:?}", on_frames(&p, 9)), "Ok(Continue(List([Int(3), Int(4), Int(7)])))");
    assert_eq!(
        format!("{:?}", on_frames(&p, 10)),
        "Ok(Continue(Record([(\"a\", Int(3)), (\"b\", Int(4))])))"
    );
    assert_eq!(format!("{:?}", on_frames(&p, 11)), "Ok(Continue(Int(4)))");
    assert_eq!(format!("{:?}", on_frames(&p, 16)), "Ok(Continue(Int(14)))");
    assert_eq!(format!("{:?}", on_frames(&p, 17)), "Ok(Continue(Int(3)))");
    assert_eq!(format!("{:?}", on_frames(&p, 18)), "Ok(Continue(List([Int(14), Int(4)])))");
}

#[test]
fn heap_continuations_short_circuit_and_report_errors() {
    let p = program();
    assert_eq!(format!("{:?}", on_frames(&p, 6)), "Ok(Continue(Bool(true)))");
    assert_eq!(format!("{:?}", on_frames(&p, 7)), "Ok(Continue(Bool(false)))");
    let bool_error = Err::<IndexedFlow, _>(("type-error".to_string(), "`!` expected Bool, found Int".to_string()));
    assert_eq!(format!("{:?}", on_frames(&p, 8)), format!("{:?}", bool_error));
    let try_error = Err::<IndexedFlow, _>(("type-error".to_string(), "lowered `?` expected Result".to_string()));
    assert_eq!(format!("{:?}", on_frames(&p, 12)), format!("{:?}", try_error));
    let missing = Err::<IndexedFlow, _>(("missing-field".to_string(), "double".to_string()));
    assert_eq!(format!("{:?}", on_frames(&p, 19)), format!("{:?}", missing));
    let overflow = Err::<IndexedFlow, _>(("overflow".to_string(), "integer overflow".to_string()));
    assert_eq!(format!("{:?}", on_frames(&p, 21)), format!("{:?}", overflow));
    let fault = on_frames(&p, 15).unwrap_err();
    assert_eq!(fault.0, "indexed-ir");
    assert_eq!(on_frames(&p, 99).unwrap_err().0, "indexed-ir");
}

#[test]
fn heap_continuations_handle_results_and_conditionals() {
    let p = program();
    assert_eq!(format!("{:?}", on_frames(&p, 22)), "Ok(Continue(ResultOk(Int(3))))");
    assert_eq!(format!("{:?}", on_frames(&p, 23)), "Ok(Continue(ResultErr(Int(4))))");
    assert_eq!(format!("{:?}", on_frames(&p, 24)), "Ok(Continue(Int(3)))");
    assert_eq!(format!("{:?}", on_frames(&p, 25)), "Ok(Continue(Int(4)))");
    assert_eq!(format!("{:?}", on_frames(&p, 27)), "Ok(Continue(Int(3)))");
    assert_eq!(format!("{:?}", on_frames(&p, 28)), "Ok(Continue(Int(3)))");
    assert_eq!(format!("{:?}", on_frames(&p, 29)), "Ok(Continue(Int(7)))");
    assert_eq!(format!("{:?}", on_frames(&p, 30)), "Ok(Continue(Int(4)))");
    let not_bool = Err::<IndexedFlow, _>(("type-error".to_string(), "lowered expression expected Bool".to_string()));
    assert_eq!(format!("{:?}", on_frames(&p, 31)), format!("{:?}", not_bool));
    assert_eq!(format!("{:?}", on_frames(&p, 32)), "Ok(Continue(Int(3)))");
    assert_eq!(format!("{:?}", on_frames(&p, 33)), "Ok(Break(ResultErr(Int(4))))");
    assert_eq!(format!("{:?}", on_frames(&p, 34)), "Ok(Break(ResultErr(Int(4))))");
}

#[test]
fn try_refuses_an_error_value_that_is_no_result() {
    let p = program();
    let error = || {
        Value::Error(Box::new(ErrorValue {
            kind: "io".to_string(),
            message: "gone".to_string(),
            family: String::new(),
            variant: String::new(),
            facets: Vec::new(),
        }))
    };
    let mut ev = Evaluator::new(Vec::new(), b"/".to_vec());
    let mut slots = vec![error()];
    let a = ev.eval_indexed_expr_on_frames(&p, 64, 35, &mut slots, span()).unwrap_err();
    let mut slots = vec![error()];
    let b = ev.eval_indexed_expr(&p, 64, 35, &mut slots, span()).unwrap_err();
    assert_eq!((a.kind.as_str(), a.message.as_str()), ("type-error", "lowered `?` expected Result"));
    assert_eq!((b.kind, b.message), (a.kind, a.message));
}

#[test]
fn division_and_remainder_round_toward_zero_and_refuse_zero() {
    let p = program();
    let engines: [fn(&FullProgram, u32) -> Result<IndexedFlow, (String, String)>; 2] = [on_frames, recursive];
    for engine in engines {
        assert_eq!(format!("{:?}", engine(&p, 36)), "Ok(Continue(Int(1)))");
        assert_eq!(format!("{:?}", engine(&p, 37)), "Ok(Continue(Int(1)))");
        let zero = Err::<IndexedFlow, _>(("division-by-zero".to_string(), "division by zero".to_string()));
        assert_eq!(format!("{:?}", engine(&p, 39)), format!("{:?}", zero));
        assert_eq!(format!("{:?}", engine(&p, 40)), format!("{:?}", zero));
    }
}

#[test]
fn ranges_count_up_or_down_and_leave_out_their_end() {
    let p = program();
    let engines: [fn(&FullProgram, u32) -> Result<IndexedFlow, (String, String)>; 2] = [on_frames, recursive];
    for engine in engines {
        assert_eq!(format!("{:?}", engine(&p, 41)), "Ok(Continue(List([Int(4), Int(3), Int(2), Int(1)])))");
        assert_eq!(format!("{:?}", engine(&p, 42)), "Ok(Continue(List([Int(0), Int(1), Int(2), Int(3)])))");
        assert_eq!(format!("{:?}", engine(&p, 45)), "Ok(Continue(List([])))");
        let start = Err::<IndexedFlow, _>(("type-error".to_string(), "range start expected Int, found Bool".to_string()));
        assert_eq!(format!("{:?}", engine(&p, 43)), format!("{:?}", start));
        let end = Err::<IndexedFlow, _>(("type-error".to_string(), "range end expected Int, found Bool".to_string()));
        assert_eq!(format!("{:?}", engine(&p, 44)), format!("{:?}", end));
    }
}

#[test]
fn tags_carry_their_name_and_evaluated_fields() {
    let p = program();
    let engines: [fn(&FullProgram, u32) -> Result<IndexedFlow, (String, String)>; 2] = [on_frames, recursive];
    for engine in engines {
        assert_eq!(
            format!("{:?}", engine(&p, 46)),
            "Ok(Continue(Tag { name: \"a\", fields: [Int(3), Int(4), Int(7)] }))"
        );
        assert_eq!(format!("{:?}", engine(&p, 47)), "Ok(Continue(Tag { name: \"b\", fields: [] }))");
        assert_eq!(format!("{:?}", engine(&p, 48)), "Ok(Break(ResultErr(Int(4))))");
        assert_eq!(format!("{:?}", engine(&p, 49)), "Ok(Continue(Dict([])))");
    }
}

#[test]
fn sort_orders_texts_by_code_point() {
    let p = program();
    let engines: [fn(&FullProgram, u32) -> Result<IndexedFlow, (String, String)>; 2] = [on_frames, recursive];
    for engine in engines {
        assert_eq!(
            format!("{:?}", engine(&p, 54)),
            "Ok(Continue(List([Str(\"a\"), Str(\"b\"), Str(\"double\")])))"
        );
        assert_eq!(
            format!("{:?}", engine(&p, 55)),
            "Ok(Continue(List([Str(\"double\"), Str(\"b\"), Str(\"a\")])))"
        );
        let mixed = Err::<IndexedFlow, _>(("type-error".to_string(), "sort expected Int or Str items".to_string()));
        assert_eq!(format!("{:?}", engine(&p, 57)), format!("{:?}", mixed));
    }
}

#[test]
fn terminal_stages_pick_sum_and_bound_their_items() {
    let p = program();
    let engines: [fn(&FullProgram, u32) -> Result<IndexedFlow, (String, String)>; 2] = [on_frames, recursive];
    for engine in engines {
        assert_eq!(format!("{:?}", engine(&p, 58)), "Ok(Continue(ResultOk(Int(3))))");
        assert_eq!(format!("{:?}", engine(&p, 59)), "Ok(Continue(ResultOk(Int(7))))");
        assert_eq!(format!("{:?}", engine(&p, 60)), "Ok(Continue(Int(14)))");
        assert_eq!(format!("{:?}", engine(&p, 61)), "Ok(Continue(ResultOk(Int(3))))");
        assert_eq!(format!("{:?}", engine(&p, 62)), "Ok(Continue(ResultOk(Int(7))))");
        let sum = Err::<IndexedFlow, _>(("type-error".to_string(), "sum expected Int stream".to_string()));
        assert_eq!(format!("{:?}", engine(&p, 63)), format!("{:?}", sum));
        assert_eq!(format!("{:?}", engine(&p, 64)), "Ok(Continue(ResultOk(Str(\"a\"))))");
        let empty = format!("{:?}", engine(&p, 66));
        assert!(empty.starts_with("Ok(Continue(ResultErr(Error("), "{empty}");
        assert!(empty.contains("empty-stream") && empty.contains("stream was empty"), "{empty}");
    }
}
