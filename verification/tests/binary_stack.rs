use indexed_run::evaluator::Evaluator;
use indexed_run::interp::IndexedFlow;
use indexed_run::ir::{BinaryOp, FullExecution, FullInstruction, FullProgram, FullTag};
use indexed_run::value::{Span, Value};

const ADD: u32 = 0;
const MUL: u32 = 2;
const AND: u32 = 9;

fn span() -> Span {
    Span::new(0, 0, 0)
}

fn ins(tag: FullTag, words: Vec<u32>) -> FullInstruction {
    FullInstruction { tag, words }
}

fn small(n: u32) -> FullInstruction {
    ins(FullTag::ExprInt, vec![n, 0])
}

fn program(instructions: Vec<FullInstruction>) -> FullProgram {
    FullProgram {
        execution: FullExecution { instructions, blocks: vec![], stages: vec![], strings: vec!["text".to_string()] },
        functions: vec![],
    }
}

fn int_of(r: IndexedFlow) -> i64 {
    match r {
        IndexedFlow::Continue(Value::Int(n)) => n,
        other => panic!("expected an Int, found {other:?}"),
    }
}

/// `((1 + 2) * 3) - 4`, with the last subtraction given to the stack.
#[test]
fn the_stack_evaluates_nested_operands() {
    let p = program(vec![
        small(1),
        small(2),
        ins(FullTag::ExprBinary, vec![ADD, 0, 1, 0, 0, 0]),
        small(3),
        ins(FullTag::ExprBinary, vec![MUL, 2, 3, 0, 0, 0]),
        small(4),
        ins(FullTag::ExprBinary, vec![1, 4, 5, 0, 0, 0]),
    ]);
    let mut ev = Evaluator::new(Vec::new(), b"/".to_vec());
    let mut slots = Vec::new();
    let stacked = ev.eval_indexed_binary_stack(&p, 8, BinaryOp::Sub, 4, 5, span(), &mut slots, span()).unwrap();
    let recursive = ev.eval_indexed_expr(&p, 8, 6, &mut slots, span()).unwrap();
    assert_eq!(int_of(stacked), 5);
    assert_eq!(int_of(recursive), 5);
}

/// A chain of two thousand additions, each on the one before it.
#[test]
fn a_long_chain_takes_no_native_stack() {
    let mut instructions = vec![small(1)];
    for i in 0..2000u32 {
        instructions.push(small(1));
        let left = if i == 0 { 0 } else { 2 * i };
        instructions.push(ins(FullTag::ExprBinary, vec![ADD, left, 2 * i + 1, 0, 0, 0]));
    }
    let last = instructions.len() as u32 - 1;
    let p = program(instructions);
    let mut ev = Evaluator::new(Vec::new(), b"/".to_vec());
    let mut slots = Vec::new();
    let r = ev.eval_indexed_binary_stack(&p, 8, BinaryOp::Add, last - 2, last - 1, span(), &mut slots, span()).unwrap();
    assert_eq!(int_of(r), 2001);
}

#[test]
fn the_stack_reports_what_recursion_reports() {
    let p = program(vec![
        small(1),
        ins(FullTag::ExprStr, vec![0]),
        ins(FullTag::ExprBinary, vec![ADD, 0, 1, 0, 0, 0]),
        ins(FullTag::ExprInt, vec![0xffff_ffff, 0x7fff_ffff]),
        ins(FullTag::ExprBool, vec![1]),
        ins(FullTag::ExprBinary, vec![AND, 4, 4, 0, 0, 0]),
    ]);
    let mut ev = Evaluator::new(Vec::new(), b"/".to_vec());
    let mut slots = Vec::new();
    let err = ev.eval_indexed_binary_stack(&p, 8, BinaryOp::Mul, 2, 0, span(), &mut slots, span()).unwrap_err();
    assert_eq!(err.kind, "type-error");
    assert_eq!(err.message, "`+` cannot combine Int and Str");
    let err = ev.eval_indexed_binary_stack(&p, 8, BinaryOp::Add, 3, 0, span(), &mut slots, span()).unwrap_err();
    assert_eq!(err.kind, "overflow");
    assert_eq!(err.message, "integer overflow");
    let r = ev.eval_indexed_binary_stack(&p, 8, BinaryOp::Eq, 5, 4, span(), &mut slots, span()).unwrap();
    assert!(matches!(r, IndexedFlow::Continue(Value::Bool(true))));
    let err = ev.eval_indexed_binary_stack(&p, 8, BinaryOp::Add, 9, 0, span(), &mut slots, span()).unwrap_err();
    assert_eq!(err.kind, "indexed-ir");
}
