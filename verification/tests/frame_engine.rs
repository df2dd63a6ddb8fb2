use indexed_run::lines::{next_line, split_lines};
use indexed_run::evaluator::Evaluator;
use indexed_run::ir::{
    FullBlock, FullExecution, FullFunction, FullInstruction, FullProgram, FullTag, FunctionHeader, LoweredFunctionKey,
    LoweredFunctionKind, LoweredType, Name, BLOCK_LIST, BLOCK_STATEMENTS,
};
use indexed_run::value::{Span, Value};

const ADD: u32 = 0;
const SUB: u32 = 1;
const MUL: u32 = 2;
const LE: u32 = 6;
const GT: u32 = 7;

fn span() -> Span {
    Span::new(0, 0, 0)
}

fn ins(tag: FullTag, words: Vec<u32>) -> FullInstruction {
    FullInstruction { tag, words }
}

fn small(n: u32) -> FullInstruction {
    ins(FullTag::ExprInt, vec![n, 0])
}

fn max_int() -> FullInstruction {
    ins(FullTag::ExprInt, vec![0xffff_ffff, 0x7fff_ffff])
}

fn param(slot: u32) -> FullInstruction {
    ins(FullTag::ExprParam, vec![slot])
}

fn binary(op: u32, left: u32, right: u32) -> FullInstruction {
    ins(FullTag::ExprBinary, vec![op, left, right, 0, 0, 0])
}

fn statements(ids: Vec<u32>) -> FullBlock {
    let mut words = vec![ids.len() as u32];
    words.extend(ids);
    FullBlock { kind: BLOCK_STATEMENTS, words }
}

fn list(words: Vec<u32>, count: u32) -> FullBlock {
    let mut all = vec![count];
    all.extend(words);
    FullBlock { kind: BLOCK_LIST, words: all }
}

fn function(name: u32, param_count: usize, return_kind: LoweredType, slot_count: usize, body: u32) -> FullFunction {
    FullFunction {
        key: LoweredFunctionKey { name: Name { id: name } },
        kind: LoweredFunctionKind::Pure,
        header: FunctionHeader { param_count, return_kind, slot_count },
        body,
        definition_span: span(),
    }
}

/// ```text
/// stream numbers(values: List[Int]) { for x in values { if x > 2 { break } yield x * 10 } yield 99 }
/// pure countdown(n: Int) -> Int { if n <= 0 { return 0 } return 1 + countdown(n - 1) }
/// stream guarded() { defer MAX + 1; yield 1; yield 2 }
/// stream wrong() { return 5 }
/// ```
fn program() -> FullProgram {
    let instructions = vec![
        // numbers
        param(0),                                  // 0
        param(1),                                  // 1
        small(2),                                  // 2
        binary(GT, 1, 2),                          // 3
        ins(FullTag::StmtBreak, vec![]),           // 4
        ins(FullTag::StmtIf, vec![3, 0, 0]),       // 5
        param(1),                                  // 6
        small(10),                                 // 7
        binary(MUL, 6, 7),                         // 8
        ins(FullTag::StmtYield, vec![8]),          // 9
        ins(FullTag::StmtFor, vec![1, 0, 1]),      // 10
        small(99),                                 // 11
        ins(FullTag::StmtYield, vec![11]),         // 12
        // countdown
        param(0),                                  // 13
        small(0),                                  // 14
        binary(LE, 13, 14),                        // 15
        small(0),                                  // 16
        ins(FullTag::StmtReturn, vec![16]),        // 17
        ins(FullTag::StmtIf, vec![15, 3, 0]),      // 18
        small(1),                                  // 19
        param(0),                                  // 20
        small(1),                                  // 21
        binary(SUB, 20, 21),                       // 22
        ins(FullTag::ExprCall, vec![1, 4, 0, 0, 0]), // 23
        binary(ADD, 19, 23),                       // 24
        ins(FullTag::StmtReturn, vec![24]),        // 25
        // guarded
        max_int(),                                 // 26
        small(1),                                  // 27
        binary(ADD, 26, 27),                       // 28
        ins(FullTag::StmtDefer, vec![28]),         // 29
        small(1),                                  // 30
        ins(FullTag::StmtYield, vec![30]),         // 31
        small(2),                                  // 32
        ins(FullTag::StmtYield, vec![32]),         // 33
        // wrong
        small(5),                                  // 34
        ins(FullTag::StmtReturn, vec![34]),        // 35
    ];
    let blocks = vec![
        statements(vec![4]),          // 0: the break
        statements(vec![5, 9]),       // 1: the loop body
        statements(vec![10, 12]),     // 2: numbers
        statements(vec![17]),         // 3: countdown's base case
        list(vec![0, 22], 1),         // 4: countdown's argument
        statements(vec![18, 25]),     // 5: countdown
        statements(vec![29, 31, 33]), // 6: guarded
        statements(vec![35]),         // 7: wrong
    ];
    let strings = vec!["numbers".to_string(), "countdown".to_string(), "guarded".to_string(), "wrong".to_string()];
    FullProgram {
        execution: FullExecution { instructions, blocks, stages: vec![], strings },
        functions: vec![
            function(0, 1, LoweredType::Stream, 2, 2),
            function(1, 1, LoweredType::Int, 1, 5),
            function(2, 0, LoweredType::Stream, 0, 6),
            function(3, 0, LoweredType::Stream, 0, 7),
        ],
    }
}

fn ints(values: &[i64]) -> Value {
    Value::List(values.iter().map(|v| Value::Int(*v)).collect())
}

fn as_int(v: &Value) -> i64 {
    match v {
        Value::Int(n) => *n,
        other => panic!("expected an Int, found {other:?}"),
    }
}

#[test]
fn frames_give_what_recursion_gives() {
    let p = program();
    let mut frames = Evaluator::new(Vec::new(), b"/".to_vec());
    let mut recursive = Evaluator::new(Vec::new(), b"/".to_vec());
    for n in 0..6 {
        let a = frames.eval_indexed_with_frames(&p, 64, 1, vec![Value::Int(n)], span()).unwrap();
        let b = recursive.eval_indexed_function(&p, 64, 1, vec![Value::Int(n)], span()).unwrap();
        assert_eq!(as_int(&a), n);
        assert_eq!(as_int(&a), as_int(&b));
    }
}

#[test]
fn frames_check_the_call_like_recursion() {
    let p = program();
    let mut ev = Evaluator::new(Vec::new(), b"/".to_vec());
    let err = ev.eval_indexed_with_frames(&p, 64, 1, vec![], span()).unwrap_err();
    assert_eq!(err.kind, "arity");
    assert_eq!(err.message, "expected 1 arguments, found 0");
    let err = ev.eval_indexed_with_frames(&p, 64, 9, vec![], span()).unwrap_err();
    assert_eq!(err.kind, "indexed-ir");
}

#[test]
fn frame_slots_run_a_stream_body_to_its_items() {
    let p = program();
    let mut ev = Evaluator::new(Vec::new(), b"/".to_vec());
    let out = ev.eval_indexed_with_frame_slots(&p, 64, 0, vec![ints(&[1, 2, 3, 4]), Value::Unit], span()).unwrap();
    match out {
        Value::Stream(stream) => {
            let items: Vec<i64> = stream.items.iter().map(as_int).collect();
            assert_eq!(items, vec![10, 20, 99]);
            assert!(stream.source.is_none());
        }
        other => panic!("expected a stream, found {other:?}"),
    }
}

#[test]
fn a_producer_hands_out_its_yields_one_pull_at_a_time() {
    let p = program();
    let mut ev = Evaluator::new(Vec::new(), b"/".to_vec());
    let mut producer = ev.start_script_producer(&p, 64, 0, vec![ints(&[1, 2, 3, 4]), Value::Unit], span()).unwrap();
    assert!(!producer.is_finished());
    let mut pulled = Vec::new();
    while let Some(v) = ev.pull_script_producer(&p, &mut producer, span()).unwrap() {
        pulled.push(as_int(&v));
    }
    assert_eq!(pulled, vec![10, 20, 99]);
    assert!(producer.is_finished());
    assert!(ev.pull_script_producer(&p, &mut producer, span()).unwrap().is_none());
    assert!(ev.stream_items.is_empty());
}

#[test]
fn the_pulled_items_are_what_the_body_yields() {
    let p = program();
    let mut ev = Evaluator::new(Vec::new(), b"/".to_vec());
    let whole = ev.eval_indexed_function(&p, 64, 0, vec![ints(&[0, 1, 2, 5, 1])], span()).unwrap();
    let expected: Vec<i64> = match whole {
        Value::Stream(stream) => stream.items.iter().map(as_int).collect(),
        other => panic!("expected a stream, found {other:?}"),
    };
    let mut producer = ev.start_script_producer(&p, 64, 0, vec![ints(&[0, 1, 2, 5, 1]), Value::Unit], span()).unwrap();
    let mut pulled = Vec::new();
    while let Some(v) = ev.pull_script_producer(&p, &mut producer, span()).unwrap() {
        pulled.push(as_int(&v));
    }
    assert_eq!(pulled, expected);
    assert_eq!(pulled, vec![0, 10, 20, 99]);
}

#[test]
fn cancelling_runs_the_open_defers_once() {
    let p = program();
    let mut ev = Evaluator::new(Vec::new(), b"/".to_vec());
    let mut producer = ev.start_script_producer(&p, 64, 2, vec![], span()).unwrap();
    let first = ev.pull_script_producer(&p, &mut producer, span()).unwrap().unwrap();
    assert_eq!(as_int(&first), 1);
    let err = ev.cancel_script_producer(&p, &mut producer, span()).unwrap_err();
    assert_eq!(err.kind, "overflow");
    assert!(producer.is_finished());
    assert!(ev.cancel_script_producer(&p, &mut producer, span()).is_ok());
    assert!(ev.pull_script_producer(&p, &mut producer, span()).unwrap().is_none());
}

#[test]
fn cancelling_a_producer_that_never_started_runs_nothing() {
    let p = program();
    let mut ev = Evaluator::new(Vec::new(), b"/".to_vec());
    let mut producer = ev.start_script_producer(&p, 64, 2, vec![], span()).unwrap();
    assert!(ev.cancel_script_producer(&p, &mut producer, span()).is_ok());
    assert!(producer.is_finished());
    assert!(ev.pull_script_producer(&p, &mut producer, span()).unwrap().is_none());
}

#[test]
fn a_body_running_to_its_end_runs_its_defers() {
    let p = program();
    let mut ev = Evaluator::new(Vec::new(), b"/".to_vec());
    let mut producer = ev.start_script_producer(&p, 64, 2, vec![], span()).unwrap();
    assert_eq!(as_int(&ev.pull_script_producer(&p, &mut producer, span()).unwrap().unwrap()), 1);
    assert_eq!(as_int(&ev.pull_script_producer(&p, &mut producer, span()).unwrap().unwrap()), 2);
    let err = ev.pull_script_producer(&p, &mut producer, span()).unwrap_err();
    assert_eq!(err.kind, "overflow");
    assert!(producer.is_finished());
}

#[test]
fn a_producer_returning_a_plain_value_fails() {
    let p = program();
    let mut ev = Evaluator::new(Vec::new(), b"/".to_vec());
    let mut producer = ev.start_script_producer(&p, 64, 3, vec![], span()).unwrap();
    let err = ev.pull_script_producer(&p, &mut producer, span()).unwrap_err();
    assert_eq!(err.kind, "type-error");
    assert_eq!(err.message, "stream producer returned Int");
    assert!(producer.is_finished());
    assert!(ev.pull_script_producer(&p, &mut producer, span()).unwrap().is_none());
}

#[test]
fn starting_an_unknown_producer_is_a_fault() {
    let p = program();
    let mut ev = Evaluator::new(Vec::new(), b"/".to_vec());
    let err = ev.start_script_producer(&p, 64, 7, vec![], span()).err().unwrap();
    assert_eq!(err.kind, "indexed-ir");
}

#[test]
fn heap_calls_give_what_recursion_gives() {
    let p = program();
    let mut heap = Evaluator::new(Vec::new(), b"/".to_vec());
    let mut recursive = Evaluator::new(Vec::new(), b"/".to_vec());
    for n in 0..8 {
        let a = heap.eval_indexed_with_frames(&p, 64, 1, vec![Value::Int(n)], span()).unwrap();
        let b = recursive.eval_indexed_function(&p, 64, 1, vec![Value::Int(n)], span()).unwrap();
        assert_eq!(as_int(&a), n);
        assert_eq!(as_int(&a), as_int(&b));
    }
    let stream = heap.eval_indexed_with_frames(&p, 64, 0, vec![ints(&[1, 2, 3])], span()).unwrap();
    match stream {
        Value::Stream(s) => assert_eq!(s.items.iter().map(as_int).collect::<Vec<_>>(), vec![10, 20, 99]),
        other => panic!("expected a stream, found {other:?}"),
    }
}

#[test]
fn heap_calls_keep_the_depth_budget() {
    let p = program();
    let mut ev = Evaluator::new(Vec::new(), b"/".to_vec());
    let err = ev.eval_indexed_with_frames(&p, 3, 1, vec![Value::Int(10)], span()).unwrap_err();
    assert_eq!(err.kind, "stack-overflow");
    assert_eq!(err.message, "indexed evaluation is nested too deeply");
    let err = ev.eval_indexed_with_frames(&p, 3, 1, vec![], span()).unwrap_err();
    assert_eq!(err.kind, "arity");
}

#[test]
fn heap_calls_nest_deeper_than_the_native_stack() {
    let p = program();
    let mut ev = Evaluator::new(Vec::new(), b"/".to_vec());
    let depth = 200_000;
    let v = ev.eval_indexed_with_frames(&p, depth as u32 + 10, 1, vec![Value::Int(depth)], span()).unwrap();
    assert_eq!(as_int(&v), depth);
}

#[test]
fn a_yield_outside_a_stream_function_is_refused() {
    let mut p = program();
    p.functions[2].header.return_kind = LoweredType::Int;
    let mut heap = Evaluator::new(Vec::new(), b"/".to_vec());
    let mut recursive = Evaluator::new(Vec::new(), b"/".to_vec());
    let a = heap.eval_indexed_with_frames(&p, 64, 2, vec![], span()).unwrap_err();
    let b = recursive.eval_indexed_function(&p, 64, 2, vec![], span()).unwrap_err();
    assert_eq!(a.kind, "control-flow");
    assert_eq!(a.message, "yield outside stream producer");
    assert_eq!(b.kind, a.kind);
    assert_eq!(b.message, a.message);
}

/// ```text
/// pure steps(n: Int) -> Int { let t = n; t += 3; t *= 2; t -= 1; t /= 3; t %= 4; return t }
/// pure by_zero(n: Int) -> Int { let t = n; t /= 0; return t }
/// pure reset(n: Int) -> Int { let t = n; t = 3; return t }
/// ```
fn assignments() -> FullProgram {
    let assign = |op: u32, value: u32| ins(FullTag::StmtAssign, vec![1, op, value, 0, 0, 0]);
    let instructions = vec![
        param(0),                                  // 0
        ins(FullTag::StmtLet, vec![1, 0]),         // 1
        small(3),                                  // 2
        assign(1, 2),                              // 3: t += 3
        small(2),                                  // 4
        assign(3, 4),                              // 5: t *= 2
        small(1),                                  // 6
        assign(2, 6),                              // 7: t -= 1
        small(3),                                  // 8
        assign(4, 8),                              // 9: t /= 3
        small(4),                                  // 10
        assign(5, 10),                             // 11: t %= 4
        param(1),                                  // 12
        ins(FullTag::StmtReturn, vec![12]),        // 13
        small(0),                                  // 14
        assign(4, 14),                             // 15: t /= 0
        assign(0, 2),                              // 16: t = 3
    ];
    let blocks = vec![
        statements(vec![1, 3, 5, 7, 9, 11, 13]),
        statements(vec![1, 15, 13]),
        statements(vec![1, 16, 13]),
    ];
    let strings = vec!["steps".to_string(), "by_zero".to_string(), "reset".to_string()];
    FullProgram {
        execution: FullExecution { instructions, blocks, stages: vec![], strings },
        functions: vec![
            function(0, 1, LoweredType::Int, 2, 0),
            function(1, 1, LoweredType::Int, 2, 1),
            function(2, 1, LoweredType::Int, 2, 2),
        ],
    }
}

#[test]
fn compound_assignments_update_the_slot() {
    let p = assignments();
    let mut heap = Evaluator::new(Vec::new(), b"/".to_vec());
    let mut recursive = Evaluator::new(Vec::new(), b"/".to_vec());
    for (n, expected) in [(5, 1), (-7, -3), (0, 1)] {
        let a = heap.eval_indexed_with_frames(&p, 64, 0, vec![Value::Int(n)], span()).unwrap();
        let b = recursive.eval_indexed_function(&p, 64, 0, vec![Value::Int(n)], span()).unwrap();
        assert_eq!(as_int(&a), expected);
        assert_eq!(as_int(&b), expected);
    }
    let a = heap.eval_indexed_with_frames(&p, 64, 2, vec![Value::Int(9)], span()).unwrap();
    assert_eq!(as_int(&a), 3);
    let err = recursive.eval_indexed_function(&p, 64, 1, vec![Value::Int(9)], span()).unwrap_err();
    assert_eq!((err.kind.as_str(), err.message.as_str()), ("division-by-zero", "division by zero"));
    let err = heap.eval_indexed_with_frames(&p, 64, 1, vec![Value::Int(9)], span()).unwrap_err();
    assert_eq!(err.kind, "division-by-zero");
}

/// ```text
/// pure unwrap(r) -> Int { guard let t = r else { return -1 }; return t }
/// pure unwrap_err(r) -> Int { guard let t = r else e { return e }; return t }
/// pure falls(r) -> Int { guard let t = r else { }; return t }
/// pure pick(r) -> Int { let { a: t, b: e } = r; return t - e }
/// ```
fn guards() -> FullProgram {
    let instructions = vec![
        param(0),                                              // 0: r
        ins(FullTag::ExprInt, vec![0xffff_ffff, 0xffff_ffff]), // 1: -1
        ins(FullTag::StmtReturn, vec![1]),                     // 2
        ins(FullTag::StmtGuard, vec![1, 0, 0, 0, 0, 0, 0, 0]), // 3
        param(1),                                              // 4: t
        ins(FullTag::StmtReturn, vec![4]),                     // 5
        param(2),                                              // 6: e
        ins(FullTag::StmtReturn, vec![6]),                     // 7
        ins(FullTag::StmtGuard, vec![1, 0, 1, 2, 1, 0, 0, 0]), // 8
        ins(FullTag::StmtGuard, vec![1, 0, 0, 0, 2, 0, 0, 0]), // 9
        ins(FullTag::StmtLetRecord, vec![0, 3, 0, 0, 0]),      // 10
        param(1),                                              // 11
        param(2),                                              // 12
        binary(SUB, 11, 12),                                   // 13
        ins(FullTag::StmtReturn, vec![13]),                    // 14
    ];
    let blocks = vec![
        statements(vec![2]),        // 0: return -1
        statements(vec![7]),        // 1: return e
        statements(vec![]),         // 2: nothing
        list(vec![0, 1, 1, 2], 2),  // 3: a -> t, b -> e
        statements(vec![3, 5]),     // 4: unwrap
        statements(vec![8, 5]),     // 5: unwrap_err
        statements(vec![9, 5]),     // 6: falls
        statements(vec![10, 14]),   // 7: pick
    ];
    let strings = ["a", "b", "unwrap", "unwrap_err", "falls", "pick"].iter().map(|s| s.to_string()).collect();
    FullProgram {
        execution: FullExecution { instructions, blocks, stages: vec![], strings },
        functions: vec![
            function(2, 1, LoweredType::Int, 3, 4),
            function(3, 1, LoweredType::Int, 3, 5),
            function(4, 1, LoweredType::Int, 3, 6),
            function(5, 1, LoweredType::Int, 3, 7),
        ],
    }
}

fn both(p: &FullProgram, f: usize, arg: impl Fn() -> Value) -> Result<i64, (String, String)> {
    let mut heap = Evaluator::new(Vec::new(), b"/".to_vec());
    let mut recursive = Evaluator::new(Vec::new(), b"/".to_vec());
    let a = heap.eval_indexed_with_frames(p, 64, f, vec![arg()], span()).map(|v| as_int(&v)).map_err(|e| (e.kind, e.message));
    let b = recursive.eval_indexed_function(p, 64, f, vec![arg()], span()).map(|v| as_int(&v)).map_err(|e| (e.kind, e.message));
    assert_eq!(a, b);
    a
}

fn failure(kind: &str, message: &str) -> Result<i64, (String, String)> {
    Err((kind.to_string(), message.to_string()))
}

#[test]
fn guards_bind_a_success_and_run_their_else_block_on_a_failure() {
    let p = guards();
    assert_eq!(both(&p, 0, || Value::ResultOk(Box::new(Value::Int(5)))), Ok(5));
    assert_eq!(both(&p, 0, || Value::ResultErr(Box::new(Value::Int(9)))), Ok(-1));
    assert_eq!(both(&p, 0, || Value::Int(3)), failure("type-error", "guard expected Result, found Int"));
    assert_eq!(both(&p, 1, || Value::ResultErr(Box::new(Value::Int(9)))), Ok(9));
    assert_eq!(both(&p, 2, || Value::ResultOk(Box::new(Value::Int(2)))), Ok(2));
    assert_eq!(both(&p, 2, || Value::ResultErr(Box::new(Value::Int(1)))), failure("guard", "guard else block must diverge"));
}

#[test]
fn record_lets_bind_each_named_field() {
    let p = guards();
    let full = || Value::Record(vec![("a".to_string(), Value::Int(7)), ("b".to_string(), Value::Int(2))]);
    assert_eq!(both(&p, 3, full), Ok(5));
    let partial = || Value::Record(vec![("a".to_string(), Value::Int(7))]);
    assert_eq!(both(&p, 3, partial), failure("field-access", "record has no field `b`"));
}

/// ```text
/// pure count_lines(t) -> Int { let n = 0; for line in lines(t) { n += 1 }; return n }
/// stream each_line(t) { for line in lines(t) { yield line } }
/// ```
fn line_loops() -> FullProgram {
    let instructions = vec![
        small(0),                                              // 0
        ins(FullTag::StmtLet, vec![2, 0]),                     // 1: n = 0
        small(1),                                              // 2
        ins(FullTag::StmtAssign, vec![2, 1, 2, 0, 0, 0]),      // 3: n += 1
        param(0),                                              // 4: t
        ins(FullTag::StmtForLines, vec![1, 4, 0, 0, 0, 0]),    // 5
        param(2),                                              // 6: n
        ins(FullTag::StmtReturn, vec![6]),                     // 7
        param(1),                                              // 8: line
        ins(FullTag::StmtYield, vec![8]),                      // 9
        param(0),                                              // 10: t
        ins(FullTag::StmtForLines, vec![1, 10, 2, 0, 0, 0]),   // 11
    ];
    let blocks = vec![
        statements(vec![3]),        // 0: count one line
        statements(vec![1, 5, 7]),  // 1: count_lines
        statements(vec![9]),        // 2: yield the line
        statements(vec![11]),       // 3: each_line
    ];
    let strings = vec!["count_lines".to_string(), "each_line".to_string()];
    FullProgram {
        execution: FullExecution { instructions, blocks, stages: vec![], strings },
        functions: vec![
            function(0, 1, LoweredType::Int, 3, 1),
            function(1, 1, LoweredType::Stream, 3, 3),
        ],
    }
}

fn text(s: &str) -> Value {
    Value::Str(s.to_string())
}

#[test]
fn line_loops_split_on_newlines_and_drop_a_carriage_return() {
    let p = line_loops();
    let mut heap = Evaluator::new(Vec::new(), b"/".to_vec());
    let mut recursive = Evaluator::new(Vec::new(), b"/".to_vec());
    for (t, n) in [("a\r\nb\n\nc\n", 4), ("", 0), ("\n", 1), ("one", 1), ("x\ny", 2)] {
        let a = heap.eval_indexed_with_frames(&p, 64, 0, vec![text(t)], span()).unwrap();
        let b = recursive.eval_indexed_function(&p, 64, 0, vec![text(t)], span()).unwrap();
        assert_eq!(as_int(&a), n);
        assert_eq!(as_int(&b), n);
    }
    let out = recursive.eval_indexed_function(&p, 64, 1, vec![text("a\r\nb\n\nc\n")], span()).unwrap();
    match out {
        Value::Stream(s) => assert_eq!(format!("{:?}", s.items), "[Str(\"a\"), Str(\"b\"), Str(\"\"), Str(\"c\")]"),
        other => panic!("expected a stream, found {other:?}"),
    }
    let out = heap.eval_indexed_with_frames(&p, 64, 1, vec![Value::Bytes(b"x\r\ny".to_vec())], span()).unwrap();
    match out {
        Value::Stream(s) => assert_eq!(format!("{:?}", s.items), "[Bytes([120]), Bytes([121])]"),
        other => panic!("expected a stream, found {other:?}"),
    }
    let err = recursive.eval_indexed_function(&p, 64, 0, vec![Value::Int(3)], span()).unwrap_err();
    assert_eq!((err.kind.as_str(), err.message.as_str()), ("type-error", "lowered for lines expected Str or Bytes"));
}

#[test]
fn next_line_finds_the_view_and_the_next_start() {
    let t = b"ab\r\ncd\n";
    assert_eq!(next_line(t, 0, t.len()), (2, 4));
    assert_eq!(next_line(t, 4, t.len()), (6, 7));
    assert_eq!(next_line(b"\r", 0, 1), (0, 1));
    assert_eq!(split_lines(b"p\n\nq"), vec![b"p".to_vec(), Vec::new(), b"q".to_vec()]);
}

#[test]
fn a_failed_compound_assignment_leaves_its_slot() {
    let p = assignments();
    let mut ev = Evaluator::new(Vec::new(), b"/".to_vec());
    let mut slots = vec![Value::Int(9), Value::Int(7)];
    let err = ev.eval_indexed_stmt(&p, 64, 15, &mut slots, span(), false).unwrap_err();
    assert_eq!(err.kind, "division-by-zero");
    assert_eq!(as_int(&slots[1]), 7);
    assert_eq!(as_int(&slots[0]), 9);
}

/// ```text
/// pure tally(n) -> Int { let i = 0; while i < n { i += 1 }; return i }
/// pure climb(n) -> Int { loop { n += 1; if n > 10 { break } }; return n }
/// pure odd(n) -> Int { while n { }; return n }
/// ```
fn loops() -> FullProgram {
    const LT: u32 = 5;
    let instructions = vec![
        small(0),                                          // 0
        ins(FullTag::StmtLet, vec![1, 0]),                 // 1: i = 0
        param(1),                                          // 2: i
        param(0),                                          // 3: n
        binary(LT, 2, 3),                                  // 4: i < n
        small(1),                                          // 5
        ins(FullTag::StmtAssign, vec![1, 1, 5, 0, 0, 0]),  // 6: i += 1
        ins(FullTag::StmtWhile, vec![4, 0]),               // 7
        ins(FullTag::StmtReturn, vec![2]),                 // 8: return i
        ins(FullTag::StmtAssign, vec![0, 1, 5, 0, 0, 0]),  // 9: n += 1
        small(10),                                         // 10
        binary(GT, 3, 10),                                 // 11: n > 10
        ins(FullTag::StmtBreak, vec![]),                   // 12
        ins(FullTag::StmtIf, vec![11, 2, 0]),              // 13
        ins(FullTag::StmtLoop, vec![3]),                   // 14
        ins(FullTag::StmtReturn, vec![3]),                 // 15: return n
        ins(FullTag::StmtWhile, vec![3, 6]),               // 16: while n { }
    ];
    let blocks = vec![
        statements(vec![6]),          // 0: while body
        statements(vec![1, 7, 8]),    // 1: tally
        statements(vec![12]),         // 2: break
        statements(vec![9, 13]),      // 3: loop body
        statements(vec![14, 15]),     // 4: climb
        statements(vec![16, 15]),     // 5: odd
        statements(vec![]),           // 6: nothing
    ];
    let strings = vec!["tally".to_string(), "climb".to_string(), "odd".to_string()];
    FullProgram {
        execution: FullExecution { instructions, blocks, stages: vec![], strings },
        functions: vec![
            function(0, 1, LoweredType::Int, 2, 1),
            function(1, 1, LoweredType::Int, 2, 4),
            function(2, 1, LoweredType::Int, 2, 5),
        ],
    }
}

#[test]
fn while_and_loop_run_until_their_condition_fails_or_they_break() {
    let p = loops();
    for (f, n, expected) in [(0usize, 5i64, 5i64), (0, -3, 0), (1, 2, 11), (1, 40, 41)] {
        assert_eq!(both(&p, f, move || Value::Int(n)), Ok(expected), "function {f} on {n}");
    }
    let mut ev = Evaluator::new(Vec::new(), b"/".to_vec());
    let err = ev.eval_indexed_function(&p, 64, 2, vec![Value::Int(1)], span()).unwrap_err();
    assert_eq!((err.kind.as_str(), err.message.as_str()), ("type-error", "lowered expression expected Bool"));
}

/// ```text
/// pure classify(r) -> Int {
///     match r { Ok(x) if x > 10 => return 2, Ok(x) => return x, Err(_) => return -1,
///               pair(a, b) => return a + b, 5 => return 50, y => return 0 }
/// }
/// pure strict(r) -> Int { match r { Ok(x) => return x } }
/// ```
fn matches() -> FullProgram {
    let instructions = vec![
        param(0),                                              // 0: r
        ins(FullTag::PatOk, vec![1, 1, 0]),                    // 1: Ok(x)
        param(1),                                              // 2: x
        small(10),                                             // 3
        binary(GT, 2, 3),                                      // 4: x > 10
        small(2),                                              // 5
        ins(FullTag::StmtReturn, vec![5]),                     // 6
        ins(FullTag::StmtReturn, vec![2]),                     // 7
        ins(FullTag::PatErr, vec![0, 0, 0]),                   // 8: Err(_)
        ins(FullTag::ExprInt, vec![0xffff_ffff, 0xffff_ffff]), // 9: -1
        ins(FullTag::StmtReturn, vec![9]),                     // 10
        ins(FullTag::PatTag, vec![2, 6]),                      // 11: pair(a, b)
        param(2),                                              // 12: a
        param(3),                                              // 13: b
        binary(ADD, 12, 13),                                   // 14
        ins(FullTag::StmtReturn, vec![14]),                    // 15
        small(5),                                              // 16
        ins(FullTag::PatLiteral, vec![16]),                    // 17: 5
        small(50),                                             // 18
        ins(FullTag::StmtReturn, vec![18]),                    // 19
        ins(FullTag::PatBind, vec![4]),                        // 20: y
        small(0),                                              // 21
        ins(FullTag::StmtReturn, vec![21]),                    // 22
        ins(FullTag::StmtMatch, vec![0, 7, 0, 0, 0]),          // 23
        ins(FullTag::StmtMatch, vec![0, 9, 0, 0, 0]),          // 24
    ];
    let blocks = vec![
        statements(vec![6]),                                           // 0
        statements(vec![7]),                                           // 1
        statements(vec![10]),                                          // 2
        statements(vec![15]),                                          // 3
        statements(vec![19]),                                          // 4
        statements(vec![22]),                                          // 5
        list(vec![1, 2, 1, 3], 2),                                     // 6: a, b
        list(vec![1, 5, 0, 1, 0, 1, 8, 0, 2, 11, 0, 3, 17, 0, 4, 20, 0, 5], 6), // 7: arms
        statements(vec![23]),                                          // 8: classify
        list(vec![1, 0, 1], 1),                                        // 9: strict's arm
        statements(vec![24]),                                          // 10: strict
    ];
    let strings = vec!["classify".to_string(), "strict".to_string(), "pair".to_string()];
    FullProgram {
        execution: FullExecution { instructions, blocks, stages: vec![], strings },
        functions: vec![
            function(0, 1, LoweredType::Int, 5, 8),
            function(1, 1, LoweredType::Int, 5, 10),
        ],
    }
}

#[test]
fn match_takes_the_first_arm_whose_pattern_and_guard_hold() {
    let p = matches();
    let ok = |n: i64| move || Value::ResultOk(Box::new(Value::Int(n)));
    assert_eq!(both(&p, 0, ok(20)), Ok(2));
    assert_eq!(both(&p, 0, ok(4)), Ok(4));
    assert_eq!(both(&p, 0, || Value::ResultErr(Box::new(Value::Int(1)))), Ok(-1));
    let pair = || Value::Tag { name: "pair".to_string(), fields: vec![Value::Int(3), Value::Int(4)] };
    assert_eq!(both(&p, 0, pair), Ok(7));
    let solo = || Value::Tag { name: "solo".to_string(), fields: vec![Value::Int(3)] };
    assert_eq!(both(&p, 0, solo), Ok(0));
    assert_eq!(both(&p, 0, || Value::Int(5)), Ok(50));
    assert_eq!(both(&p, 0, || Value::Int(9)), Ok(0));
    assert_eq!(both(&p, 1, || Value::ResultErr(Box::new(Value::Int(1)))), failure("match", "no match arm matched"));
}
