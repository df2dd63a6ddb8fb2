use indexed_run::evaluator::Evaluator;
use indexed_run::ir::{
    FullBlock, FullExecution, FullFunction, FullInstruction, FullProgram, FullStage, FullStageTag, FullTag,
    FunctionHeader, LoweredFunctionKey, LoweredFunctionKind, LoweredType, Name, BLOCK_LIST, BLOCK_STATEMENTS,
};
use indexed_run::value::{Span, Value};

const ADD: u32 = 0;
const SUB: u32 = 1;
const MUL: u32 = 2;
const LE: u32 = 6;
const GT: u32 = 7;

fn ins(tag: FullTag, words: Vec<u32>) -> FullInstruction {
    FullInstruction { tag, words }
}

fn int_lit(n: u32) -> FullInstruction {
    ins(FullTag::ExprInt, vec![n, 0])
}

fn param(slot: u32) -> FullInstruction {
    ins(FullTag::ExprParam, vec![slot])
}

fn binary(op: u32, left: u32, right: u32) -> FullInstruction {
    ins(FullTag::ExprBinary, vec![op, left, right, 0, 0, 0])
}

fn statements(ids: Vec<u32>) -> FullBlock {
    let mut words = vec![ids.len() as u32];
    words.extend(ids);
    FullBlock { kind: BLOCK_STATEMENTS, words }
}

fn list(words: Vec<u32>, count: u32) -> FullBlock {
    let mut all = vec![count];
    all.extend(words);
    FullBlock { kind: BLOCK_LIST, words: all }
}

fn function(name: u32, param_count: usize, return_kind: LoweredType, slot_count: usize, body: u32) -> FullFunction {
    FullFunction {
        key: LoweredFunctionKey { name: Name { id: name } },
        kind: LoweredFunctionKind::Pure,
        header: FunctionHeader { param_count, return_kind, slot_count },
        body,
        definition_span: Span::new(0, 0, 0),
    }
}

/// The four functions of the direct-call scenario, lowered by hand:
///
/// ```text
/// pure double(value: Int) -> Int { return value * 2 }
/// pure countdown(n: Int) -> Int { if n <= 0 { return 0 } return 1 + countdown(n - 1) }
/// pure direct_limit(n: Int) -> Int { let base: Int = 2; if n > base { return double(n) } return base }
/// pure pipeline(values: List[Int]) -> List[Int] { return values |> where . > 1 |> map . * 2 |> sort }
/// ```
fn scenario_program() -> FullProgram {
    let instructions = vec![
        // double
        param(0),                                    // 0
        int_lit(2),                                      // 1
        binary(MUL, 0, 1),                           // 2
        ins(FullTag::StmtReturn, vec![2]),           // 3
        // countdown
        param(0),                                    // 4
        int_lit(0),                                      // 5
        binary(LE, 4, 5),                            // 6
        int_lit(0),                                      // 7
        ins(FullTag::StmtReturn, vec![7]),           // 8
        ins(FullTag::StmtIf, vec![6, 1, 0]),         // 9
        int_lit(1),                                      // 10
        param(0),                                    // 11
        int_lit(1),                                      // 12
        binary(SUB, 11, 12),                         // 13
        ins(FullTag::ExprCall, vec![1, 2, 0, 0, 0]), // 14
        binary(ADD, 10, 14),                         // 15
        ins(FullTag::StmtReturn, vec![15]),          // 16
        // direct_limit
        int_lit(2),                                      // 17
        ins(FullTag::StmtLet, vec![1, 17]),          // 18
        param(0),                                    // 19
        param(1),                                    // 20
        binary(GT, 19, 20),                          // 21
        param(0),                                    // 22
        ins(FullTag::ExprCall, vec![0, 4, 0, 0, 0]), // 23
        ins(FullTag::StmtReturn, vec![23]),          // 24
        ins(FullTag::StmtIf, vec![21, 5, 0]),        // 25
        param(1),                                    // 26
        ins(FullTag::StmtReturn, vec![26]),          // 27
        // pipeline
        param(0),                                    // 28
        param(1),                                    // 29
        int_lit(1),                                      // 30
        binary(GT, 29, 30),                          // 31
        param(1),                                    // 32
        int_lit(2),                                      // 33
        binary(MUL, 32, 33),                         // 34
        ins(FullTag::ExprPipeline, vec![28, 7, 0, 0, 0]), // 35
        ins(FullTag::StmtReturn, vec![35]),          // 36
    ];
    let blocks = vec![
        statements(vec![3]),          // 0: double's body
        statements(vec![8]),          // 1: countdown's base case
        list(vec![0, 13], 1),         // 2: countdown's recursive argument
        statements(vec![9, 16]),      // 3: countdown's body
        list(vec![0, 22], 1),         // 4: the argument to double
        statements(vec![24]),         // 5: direct_limit's branch
        statements(vec![18, 25, 27]), // 6: direct_limit's body
        list(vec![0, 1, 2], 3),       // 7: the pipeline's stages
        statements(vec![36]),         // 8: pipeline's body
    ];
    let stages = vec![
        FullStage { tag: FullStageTag::Where, words: vec![1, 31] },
        FullStage { tag: FullStageTag::MapItems, words: vec![1, 34] },
        FullStage { tag: FullStageTag::Sort, words: vec![0] },
    ];
    let strings = vec![
        "double".to_string(),
        "countdown".to_string(),
        "direct_limit".to_string(),
        "pipeline".to_string(),
    ];
    FullProgram {
        execution: FullExecution { instructions, blocks, stages, strings },
        functions: vec![
            function(0, 1, LoweredType::Int, 1, 0),
            function(1, 1, LoweredType::Int, 1, 3),
            function(2, 1, LoweredType::Int, 2, 6),
            function(3, 1, LoweredType::List, 2, 8),
        ],
    }
}

fn key(name: u32) -> LoweredFunctionKey {
    LoweredFunctionKey { name: Name { id: name } }
}

#[test]
fn direct_indexed_function_executes_without_decoding_its_body() {
    let mut evaluator = Evaluator::new(Vec::new(), b"/".to_vec());
    evaluator.install_indexed_program(scenario_program());
    let (direct_limit, countdown, pipeline) = (key(2), key(1), key(3));

    let result = evaluator
        .call_indexed_direct(direct_limit, LoweredFunctionKind::Pure, &[Value::Int(4)], Span::new(0, 0, 0))
        .expect("function uses only direct indexed opcodes")
        .unwrap();
    assert!(matches!(result, Value::Int(8)), "{result:?}");

    let recursive = evaluator
        .call_indexed_direct(countdown, LoweredFunctionKind::Pure, &[Value::Int(4)], Span::new(0, 0, 0))
        .expect("self-recursive function uses only direct indexed opcodes")
        .unwrap();
    assert!(matches!(recursive, Value::Int(4)), "{recursive:?}");

    let piped = evaluator
        .call_indexed_direct(
            pipeline,
            LoweredFunctionKind::Pure,
            &[Value::List(vec![Value::Int(3), Value::Int(1), Value::Int(2)])],
            Span::new(0, 0, 0),
        )
        .expect("collection pipeline uses only direct indexed opcodes")
        .unwrap();
    match piped {
        Value::List(items) => {
            assert_eq!(items.len(), 2);
            assert!(matches!(items[0], Value::Int(4)));
            assert!(matches!(items[1], Value::Int(6)));
        }
        other => panic!("expected a list, found {other:?}"),
    }
}
