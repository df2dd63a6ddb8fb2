//! Expressions evaluated on the heap: instead of recursing into an operand,
//! the frame engine pushes a continuation that says what to do with the
//! operand's value, and evaluates the operand next. One step either starts
//! an expression (`Eval`) or hands a value to the continuation waiting for
//! it (`Deliver`). What a pending expression and its continuations still
//! mean is defined over the recursive semantics, and every step is proved
//! to keep that meaning, so a run that finishes gives exactly what the
//! recursive evaluator gives.
use vstd::prelude::*;
use crate::value::{Span, ErrorModel, ValueModel, spec_type_name, Value, RuntimeError, model_list, model_entries};
use crate::interp::{
    IndexedFlow, machine_of, kept, fault_error, instruction_at, list_block_words, span_at, binary_op_from, int_from_words,
    type_error_at, apply_binary, append_record_entry, PipeItems, op_symbol, flow_outcome, frame_condition_bool,
    range_list, range_start_error_at, range_end_error_at,
};
use vstd::string::*;
use crate::evaluator::{Evaluator, cache_valid};
use crate::value::clone_value;
use crate::explicit::ExplicitFrames;
use crate::ir::{FullProgram, FullTag, BinaryOp, binary_op_of};
use crate::semantics::{
    Machine, Flow, PipeState, ev_expr, ev_list, ev_record, ev_args, ev_stages, ev_binary, named_call, fault, type_error,
    field_value, binary_value, op_text, list_items, pipe_value, put_entry, put_entries, ev_if, condition_of, expected_bool,
    range_values, range_start_error, range_end_error,
};
use crate::runs::span_of;
use crate::explicit::{step_limit_error, MAX_FRAME_STEPS};

verus! {

/// What is still to be done with the value of the expression being
/// evaluated, innermost first.
pub enum ContModel {
    /// Hand the value out of the machine.
    Return,
    /// Take field `name` (a string index) of the value.
    Field { name: u32, span: Span, next: Box<ContModel> },
    /// The value is the left operand of binary `instruction`; `right` is
    /// still to be evaluated.
    BinaryLeft { instruction: u32, op: BinaryOp, right: u32, span: Span, next: Box<ContModel> },
    /// The value is the right operand of a strict operator whose left
    /// operand was `left`.
    BinaryRight { op: BinaryOp, left: ValueModel, span: Span, next: Box<ContModel> },
    /// The value is the right operand of `&&` or `||`, which must be a
    /// boolean and is the result.
    BoolBinaryRight { op: BinaryOp, span: Span, next: Box<ContModel> },
    /// Negate the value.
    Not { span: Span, next: Box<ContModel> },
    /// Unwrap a successful result, or leave the function with a failed one.
    Try { span: Span, next: Box<ContModel> },
    /// The value is item `index` of list literal `instruction`, whose item
    /// ids are in list block `block`; `values` are the items before it.
    ListItems { instruction: u32, block: u32, index: nat, values: Seq<ValueModel>, next: Box<ContModel> },
    /// The value is entry `index` of record literal `instruction`, whose
    /// entries are in list block `block`; `fields` holds the entries before.
    RecordItems {
        instruction: u32,
        block: u32,
        index: nat,
        fields: Seq<(Seq<char>, ValueModel)>,
        next: Box<ContModel>,
    },
    /// The value is argument `index` of call `instruction` to the function
    /// `name` names, whose arguments are in list block `block`.
    CallArguments {
        instruction: u32,
        name: u32,
        block: u32,
        index: nat,
        values: Seq<ValueModel>,
        span: Span,
        next: Box<ContModel>,
    },
    /// The value is the source of pipeline `instruction`, whose stage ids are
    /// in list block `block`.
    PipelineSource { instruction: u32, block: u32, span: Span, next: Box<ContModel> },
    /// Wrap the value as a successful result.
    WrapOk { next: Box<ContModel> },
    /// Wrap the value as a failed result.
    WrapErr { next: Box<ContModel> },
    /// The value is the left side of `??`: a success is unwrapped, a
    /// failure or `null` gives way to `right`.
    ResultFallback { right: u32, next: Box<ContModel> },
    /// The value is the list of a tag's fields; the tag is named by string
    /// `name`.
    WrapTag { name: u32, next: Box<ContModel> },
    /// The value is the start of a range whose end is `end`.
    RangeStart { end: u32, span: Span, next: Box<ContModel> },
    /// The value is the end of a range that starts at `start`.
    RangeEnd { start: i64, span: Span, next: Box<ContModel> },
    /// The value is the condition of branch `index` of `if` expression
    /// `instruction`, whose (condition, value) pairs are in list block
    /// `block` and whose `else` value is `else_value`.
    IfCondition { instruction: u32, block: u32, index: nat, else_value: u32, span: Span, next: Box<ContModel> },
}

/// A pending unit of expression work: an expression to start, or a value to
/// hand to a continuation.
pub enum ExprWorkModel {
    Eval { id: u32, next: ContModel },
    Deliver { value: ValueModel, next: ContModel },
}

/// What one step leaves: more work, the flow the whole expression ended
/// with, or a call to make.
pub enum ExprStepModel {
    Running(ExprWorkModel, Machine),
    Finished(Flow, Machine),
    /// The function `name` names is to be called with `args`, and its value
    /// handed to `next`.
    Calling { name: u32, args: Seq<ValueModel>, span: Span, next: ContModel, m: Machine },
}

/// Continuing an outcome of the recursive semantics with `k`.
pub open spec fn then_cont(p: FullProgram, b: nat, r: Result<(Flow, Machine), ErrorModel>, k: ContModel, cs: Span)
    -> Result<(Flow, Machine), ErrorModel>
{
    match r {
        Err(e) => Err(e),
        Ok((Flow::Exit(v), m1)) => Ok((Flow::Exit(v), m1)),
        Ok((Flow::Next(v), m1)) => sem_cont(p, b, k, v, m1, cs),
    }
}

/// What evaluating `id` and then continuing with `k` means.
pub open spec fn sem_eval(p: FullProgram, b: nat, id: u32, k: ContModel, m: Machine, cs: Span) -> Result<(Flow, Machine), ErrorModel>
{
    then_cont(p, b, ev_expr(p, b, id, m, cs), k, cs)
}

/// A collected list or a propagated value, continued with `k`.
pub open spec fn then_items(
    p: FullProgram, b: nat, r: Result<(Result<Seq<ValueModel>, ValueModel>, Machine), ErrorModel>, k: ContModel, cs: Span,
) -> Result<(Flow, Machine), ErrorModel>
{
    match r {
        Err(e) => Err(e),
        Ok((Err(x), m1)) => Ok((Flow::Exit(x), m1)),
        Ok((Ok(vals), m1)) => sem_cont(p, b, k, ValueModel::List(vals), m1, cs),
    }
}

/// What putting the value `v` of record entry `index` into `fields` gives: a
/// named field is set, a spread puts every entry of a record.
pub open spec fn record_put(p: FullProgram, w: Seq<u32>, index: nat, fields: Seq<(Seq<char>, ValueModel)>, v: ValueModel, cs: Span)
    -> Result<Seq<(Seq<char>, ValueModel)>, ErrorModel>
{
    if w[3 * (index as int)] == 0 {
        Ok(put_entry(fields, p.execution.strings@[w[3 * (index as int) + 1] as int]@, v))
    } else {
        match v {
            ValueModel::Record(src) => Ok(put_entries(fields, src)),
            ValueModel::Module(src) => Ok(put_entries(fields, src)),
            _ => Err(type_error("record spread expected Record, found "@ + spec_type_name(v), cs)),
        }
    }
}

/// The rest of an `if` expression once the condition of branch `index`
/// has the value `c`: the branch's value when it holds, else the branches
/// after it.
pub open spec fn if_rest(
    p: FullProgram, b: nat, instruction: u32, pw: Seq<u32>, index: nat, else_value: u32, span: Span, c: ValueModel, m: Machine, cs: Span,
) -> Result<(Flow, Machine), ErrorModel> {
    match condition_of(c) {
        None => Err(expected_bool(span)),
        Some(true) => ev_expr(p, b, pw[2 * (index as int) + 1], m, cs),
        Some(false) => ev_if(p, b, instruction, pw, index + 1, else_value, span, m, cs),
    }
}

/// What handing the value `v` to the continuation `k` means: the rest of
/// the expression evaluated as the recursive semantics evaluates it.
pub open spec fn sem_cont(p: FullProgram, b: nat, k: ContModel, v: ValueModel, m: Machine, cs: Span) -> Result<(Flow, Machine), ErrorModel>
    decreases k,
{
    match k {
        ContModel::Return => Ok((Flow::Next(v), m)),
        ContModel::Field { name, span, next } => if (name as int) < p.execution.strings@.len() {
            match field_value(v, p.execution.strings@[name as int]@, span) {
                Ok(fv) => sem_cont(p, b, *next, fv, m, cs),
                Err(e) => Err(e),
            }
        } else {
            Err(fault(cs))
        },
        ContModel::BinaryLeft { instruction, op, right, span, next } => if op == BinaryOp::And || op == BinaryOp::Or {
            match v {
                ValueModel::Bool(x) => if (op == BinaryOp::And && !x) || (op == BinaryOp::Or && x) {
                    sem_cont(p, b, *next, ValueModel::Bool(x), m, cs)
                } else {
                    match ev_expr(p, b, right, m, cs) {
                        Err(e) => Err(e),
                        Ok((Flow::Exit(y), m2)) => Ok((Flow::Exit(y), m2)),
                        Ok((Flow::Next(ValueModel::Bool(y)), m2)) => sem_cont(p, b, *next, ValueModel::Bool(y), m2, cs),
                        Ok((Flow::Next(rv), m2)) =>
                            Err(type_error("`"@ + op_text(op) + "` expected Bool, found "@ + spec_type_name(rv), span)),
                    }
                },
                _ => Err(type_error("`"@ + op_text(op) + "` expected Bool, found "@ + spec_type_name(v), span)),
            }
        } else {
            match ev_expr(p, b, right, m, cs) {
                Err(e) => Err(e),
                Ok((Flow::Exit(y), m2)) => Ok((Flow::Exit(y), m2)),
                Ok((Flow::Next(rv), m2)) => match binary_value(op, v, rv, span) {
                    Ok(r) => sem_cont(p, b, *next, r, m2, cs),
                    Err(e) => Err(e),
                },
            }
        },
        ContModel::BinaryRight { op, left, span, next } => match binary_value(op, left, v, span) {
            Ok(r) => sem_cont(p, b, *next, r, m, cs),
            Err(e) => Err(e),
        },
        ContModel::BoolBinaryRight { op, span, next } => match v {
            ValueModel::Bool(y) => sem_cont(p, b, *next, ValueModel::Bool(y), m, cs),
            _ => Err(type_error("`"@ + op_text(op) + "` expected Bool, found "@ + spec_type_name(v), span)),
        },
        ContModel::Not { span, next } => match v {
            ValueModel::Bool(x) => sem_cont(p, b, *next, ValueModel::Bool(!x), m, cs),
            _ => Err(type_error("`!` expected Bool, found "@ + spec_type_name(v), span)),
        },
        ContModel::Try { span, next } => match v {
            ValueModel::ResultOk(inner) => sem_cont(p, b, *next, *inner, m, cs),
            ValueModel::ResultErr(_) => Ok((Flow::Exit(v), m)),
            _ => Err(type_error("lowered `?` expected Result"@, cs)),
        },
        ContModel::ListItems { instruction, block, index, values, next } => match list_items(p, block, 1) {
            None => Err(fault(cs)),
            Some(ids) => match ev_list(p, b, instruction, ids, index + 1, values.push(v), m, cs) {
                Err(e) => Err(e),
                Ok((Err(x), m1)) => Ok((Flow::Exit(x), m1)),
                Ok((Ok(vals), m1)) => sem_cont(p, b, *next, ValueModel::List(vals), m1, cs),
            },
        },
        ContModel::RecordItems { instruction, block, index, fields, next } => match list_items(p, block, 3) {
            None => Err(fault(cs)),
            Some(w) => if 3 * index + 3 > w.len() || !record_entry_ok(p, instruction, w, index) {
                Err(fault(cs))
            } else {
                match record_put(p, w, index, fields, v, cs) {
                    Err(e) => Err(e),
                    Ok(f1) => match ev_record(p, b, instruction, w, index + 1, f1, m, cs) {
                        Err(e) => Err(e),
                        Ok((Err(x), m1)) => Ok((Flow::Exit(x), m1)),
                        Ok((Ok(es), m1)) => sem_cont(p, b, *next, ValueModel::Record(es), m1, cs),
                    },
                }
            },
        },
        ContModel::CallArguments { instruction, name, block, index, values, span, next } =>
            if (name as int) < p.execution.strings@.len() {
                match list_items(p, block, 2) {
                    None => Err(fault(cs)),
                    Some(w) => match ev_args(p, b, instruction, w, index + 1, values.push(v), m, cs) {
                        Err(e) => Err(e),
                        Ok((Err(x), m1)) => Ok((Flow::Exit(x), m1)),
                        Ok((Ok(args), m1)) => match named_call(p, b, name, args, span) {
                            Err(e) => Err(e),
                            Ok(r) => sem_cont(p, b, *next, r, m1, cs),
                        },
                    },
                }
            } else {
                Err(fault(cs))
            },
        ContModel::PipelineSource { instruction, block, span, next } => match list_items(p, block, 1) {
            None => Err(fault(cs)),
            Some(sids) => match v {
                ValueModel::List(items) => match ev_stages(p, b, instruction, sids, 0, PipeState::Items(items), m, cs, span) {
                    Err(e) => Err(e),
                    Ok((Err(x), m1)) => Ok((Flow::Exit(x), m1)),
                    Ok((Ok(st), m1)) => sem_cont(p, b, *next, pipe_value(st), m1, cs),
                },
                _ => Err(type_error("pipeline expected List, found "@ + spec_type_name(v), span)),
            },
        },
        ContModel::WrapOk { next } => sem_cont(p, b, *next, ValueModel::ResultOk(Box::new(v)), m, cs),
        ContModel::WrapErr { next } => sem_cont(p, b, *next, ValueModel::ResultErr(Box::new(v)), m, cs),
        ContModel::WrapTag { name, next } => match v {
            ValueModel::List(vs) => if (name as int) < p.execution.strings@.len() {
                sem_cont(p, b, *next, ValueModel::Tag { name: p.execution.strings@[name as int]@, fields: vs }, m, cs)
            } else {
                Err(fault(cs))
            },
            _ => Err(fault(cs)),
        },
        ContModel::RangeStart { end, span, next } => match v {
            ValueModel::Int(a) => match ev_expr(p, b, end, m, cs) {
                Err(e) => Err(e),
                Ok((Flow::Exit(y), m2)) => Ok((Flow::Exit(y), m2)),
                Ok((Flow::Next(ValueModel::Int(c)), m2)) => sem_cont(p, b, *next, ValueModel::List(range_values(a, c)), m2, cs),
                Ok((Flow::Next(y), m2)) => Err(range_end_error(y, span)),
            },
            _ => Err(range_start_error(v, span)),
        },
        ContModel::RangeEnd { start, span, next } => match v {
            ValueModel::Int(c) => sem_cont(p, b, *next, ValueModel::List(range_values(start, c)), m, cs),
            _ => Err(range_end_error(v, span)),
        },
        ContModel::ResultFallback { right, next } => match v {
            ValueModel::ResultOk(inner) => sem_cont(p, b, *next, *inner, m, cs),
            ValueModel::ResultErr(_) | ValueModel::Null => match ev_expr(p, b, right, m, cs) {
                Err(e) => Err(e),
                Ok((Flow::Exit(y), m2)) => Ok((Flow::Exit(y), m2)),
                Ok((Flow::Next(y), m2)) => sem_cont(p, b, *next, y, m2, cs),
            },
            _ => sem_cont(p, b, *next, v, m, cs),
        },
        ContModel::IfCondition { instruction, block, index, else_value, span, next } => match list_items(p, block, 2) {
            None => Err(fault(cs)),
            Some(pw) => if 2 * index + 2 > pw.len() {
                Err(fault(cs))
            } else {
                match if_rest(p, b, instruction, pw, index, else_value, span, v, m, cs) {
                    Err(e) => Err(e),
                    Ok((Flow::Exit(y), m2)) => Ok((Flow::Exit(y), m2)),
                    Ok((Flow::Next(y), m2)) => sem_cont(p, b, *next, y, m2, cs),
                }
            },
        },
    }
}

/// What a unit of expression work means.
pub open spec fn sem_expr_work(p: FullProgram, b: nat, w: ExprWorkModel, m: Machine, cs: Span) -> Result<(Flow, Machine), ErrorModel> {
    match w {
        ExprWorkModel::Eval { id, next } => sem_eval(p, b, id, next, m, cs),
        ExprWorkModel::Deliver { value, next } => sem_cont(p, b, next, value, m, cs),
    }
}


/// Whether `&&` or `||` is decided by its left operand `x`.
pub open spec fn decided(op: BinaryOp, x: bool) -> bool {
    (op == BinaryOp::And && !x) || (op == BinaryOp::Or && x)
}

/// Whether entry `k` of the record entry words `w` is well formed for
/// literal `id`: its value lies below, its mode is a field or a spread, and
/// a field names a string.
pub open spec fn record_entry_ok(p: FullProgram, id: u32, w: Seq<u32>, k: nat) -> bool {
    !(w[3 * (k as int) + 2] >= id || w[3 * (k as int)] > 1
        || (w[3 * (k as int)] == 0 && w[3 * (k as int) + 1] as int >= p.execution.strings@.len()))
}

/// One step starting the evaluation of instruction `id`: a constant or a
/// slot is a value at once; anything else starts its first operand with a
/// continuation for the rest.
#[verifier::opaque]
pub open spec fn step_eval(p: FullProgram, b: nat, id: u32, k: ContModel, m: Machine, cs: Span) -> Result<ExprStepModel, ErrorModel> {
    if id as int >= p.execution.instructions@.len() {
        Err(fault(cs))
    } else {
        let ins = p.execution.instructions@[id as int];
        let w = ins.words@;
        let strings = p.execution.strings@;
        let deliver = |v: ValueModel| Ok(ExprStepModel::Running(ExprWorkModel::Deliver { value: v, next: k }, m));
        let eval = |e: u32, c: ContModel| Ok(ExprStepModel::Running(ExprWorkModel::Eval { id: e, next: c }, m));
        match ins.tag {
            FullTag::ExprNull => if w.len() == 0 { deliver(ValueModel::Null) } else { Err(fault(cs)) },
            FullTag::ExprUnit => if w.len() == 0 { deliver(ValueModel::Unit) } else { Err(fault(cs)) },
            FullTag::ExprEmptyMap => if w.len() == 0 { deliver(ValueModel::Dict(Seq::empty())) } else { Err(fault(cs)) },
            FullTag::ExprBool => if w.len() == 1 && w[0] <= 1 { deliver(ValueModel::Bool(w[0] == 1)) } else { Err(fault(cs)) },
            FullTag::ExprInt => if w.len() == 2 {
                deliver(ValueModel::Int(crate::decode::i64_of_words(w[0], w[1]) as i64))
            } else {
                Err(fault(cs))
            },
            FullTag::ExprStr => if w.len() == 1 && (w[0] as int) < strings.len() {
                deliver(ValueModel::Str(strings[w[0] as int]@))
            } else {
                Err(fault(cs))
            },
            FullTag::ExprParam => if w.len() == 1 && (w[0] as int) < m.slots.len() {
                deliver(m.slots[w[0] as int])
            } else {
                Err(fault(cs))
            },
            FullTag::ExprField => if w.len() == 5 && w[0] < id && (w[1] as int) < strings.len() {
                eval(w[0], ContModel::Field { name: w[1], span: span_of(w.skip(2)), next: Box::new(k) })
            } else {
                Err(fault(cs))
            },
            FullTag::ExprBinary => if w.len() == 6 && binary_op_of(w[0]) is Some && w[1] < id && w[2] < id {
                eval(w[1], ContModel::BinaryLeft {
                    instruction: id, op: binary_op_of(w[0])->0, right: w[2], span: span_of(w.skip(3)), next: Box::new(k) })
            } else {
                Err(fault(cs))
            },
            FullTag::ExprNot => if w.len() == 4 && w[0] < id {
                eval(w[0], ContModel::Not { span: span_of(w.skip(1)), next: Box::new(k) })
            } else {
                Err(fault(cs))
            },
            FullTag::ExprTry => if w.len() == 4 && w[0] < id {
                eval(w[0], ContModel::Try { span: span_of(w.skip(1)), next: Box::new(k) })
            } else {
                Err(fault(cs))
            },
            FullTag::ExprList => if w.len() == 1 && list_items(p, w[0], 1) is Some {
                let ids = list_items(p, w[0], 1)->0;
                if ids.len() == 0 {
                    deliver(ValueModel::List(Seq::empty()))
                } else if ids[0] >= id {
                    Err(fault(cs))
                } else {
                    eval(ids[0], ContModel::ListItems { instruction: id, block: w[0], index: 0, values: Seq::empty(), next: Box::new(k) })
                }
            } else {
                Err(fault(cs))
            },
            FullTag::ExprRecord => if w.len() == 1 && list_items(p, w[0], 3) is Some {
                let ew = list_items(p, w[0], 3)->0;
                if 3 > ew.len() {
                    deliver(ValueModel::Record(Seq::empty()))
                } else if !record_entry_ok(p, id, ew, 0) {
                    Err(fault(cs))
                } else {
                    eval(ew[2], ContModel::RecordItems { instruction: id, block: w[0], index: 0, fields: Seq::empty(), next: Box::new(k) })
                }
            } else {
                Err(fault(cs))
            },
            FullTag::ExprCall => if w.len() == 5 && (w[0] as int) < strings.len() && list_items(p, w[1], 2) is Some {
                let aw = list_items(p, w[1], 2)->0;
                let span = span_of(w.skip(2));
                if 2 > aw.len() {
                    Ok(ExprStepModel::Calling { name: w[0], args: Seq::empty(), span, next: k, m })
                } else if aw[0] != 0 || aw[1] >= id {
                    Err(fault(cs))
                } else {
                    eval(aw[1], ContModel::CallArguments {
                        instruction: id, name: w[0], block: w[1], index: 0, values: Seq::empty(), span, next: Box::new(k) })
                }
            } else {
                Err(fault(cs))
            },
            FullTag::ExprPipeline => if w.len() == 5 && w[0] < id && list_items(p, w[1], 1) is Some {
                eval(w[0], ContModel::PipelineSource { instruction: id, block: w[1], span: span_of(w.skip(2)), next: Box::new(k) })
            } else {
                Err(fault(cs))
            },
            FullTag::ExprOk => if w.len() == 1 && w[0] < id {
                eval(w[0], ContModel::WrapOk { next: Box::new(k) })
            } else {
                Err(fault(cs))
            },
            FullTag::ExprErr => if w.len() == 1 && w[0] < id {
                eval(w[0], ContModel::WrapErr { next: Box::new(k) })
            } else {
                Err(fault(cs))
            },
            FullTag::ExprResultFallback => if w.len() == 2 && w[0] < id && w[1] < id {
                eval(w[0], ContModel::ResultFallback { right: w[1], next: Box::new(k) })
            } else {
                Err(fault(cs))
            },
            FullTag::ExprTag => if w.len() == 2 && (w[0] as int) < strings.len() && list_items(p, w[1], 1) is Some {
                let ids = list_items(p, w[1], 1)->0;
                if ids.len() == 0 {
                    deliver(ValueModel::Tag { name: strings[w[0] as int]@, fields: Seq::empty() })
                } else if ids[0] >= id {
                    Err(fault(cs))
                } else {
                    eval(ids[0], ContModel::ListItems {
                        instruction: id, block: w[1], index: 0, values: Seq::empty(),
                        next: Box::new(ContModel::WrapTag { name: w[0], next: Box::new(k) }) })
                }
            } else {
                Err(fault(cs))
            },
            FullTag::ExprRange => if w.len() == 5 && w[0] < id && w[1] < id {
                eval(w[0], ContModel::RangeStart { end: w[1], span: span_of(w.skip(2)), next: Box::new(k) })
            } else {
                Err(fault(cs))
            },
            FullTag::ExprIf => if w.len() == 5 && w[1] < id && list_items(p, w[0], 2) is Some {
                let pw = list_items(p, w[0], 2)->0;
                if 2 > pw.len() {
                    eval(w[1], k)
                } else if pw[0] >= id || pw[1] >= id {
                    Err(fault(cs))
                } else {
                    eval(pw[0], ContModel::IfCondition {
                        instruction: id, block: w[0], index: 0, else_value: w[1], span: span_of(w.skip(2)), next: Box::new(k) })
                }
            } else {
                Err(fault(cs))
            },
            _ => Err(fault(cs)),
        }
    }
}

/// One step handing the value `v` to the continuation `k`: the continuation
/// finishes its own work, then either starts its next operand or hands its
/// result on.
#[verifier::opaque]
pub open spec fn step_deliver(p: FullProgram, b: nat, k: ContModel, v: ValueModel, m: Machine, cs: Span) -> Result<ExprStepModel, ErrorModel> {
    let deliver = |x: ValueModel, c: ContModel, m1: Machine| Ok(ExprStepModel::Running(ExprWorkModel::Deliver { value: x, next: c }, m1));
    let eval = |e: u32, c: ContModel| Ok(ExprStepModel::Running(ExprWorkModel::Eval { id: e, next: c }, m));
    match k {
        ContModel::Return => Ok(ExprStepModel::Finished(Flow::Next(v), m)),
        ContModel::Field { name, span, next } => if (name as int) < p.execution.strings@.len() {
            match field_value(v, p.execution.strings@[name as int]@, span) {
                Ok(fv) => deliver(fv, *next, m),
                Err(e) => Err(e),
            }
        } else {
            Err(fault(cs))
        },
        ContModel::BinaryLeft { instruction, op, right, span, next } => if op == BinaryOp::And || op == BinaryOp::Or {
            match v {
                ValueModel::Bool(x) => if decided(op, x) {
                    deliver(ValueModel::Bool(x), *next, m)
                } else {
                    eval(right, ContModel::BoolBinaryRight { op, span, next })
                },
                _ => Err(type_error("`"@ + op_text(op) + "` expected Bool, found "@ + spec_type_name(v), span)),
            }
        } else {
            eval(right, ContModel::BinaryRight { op, left: v, span, next })
        },
        ContModel::BinaryRight { op, left, span, next } => match binary_value(op, left, v, span) {
            Ok(r) => deliver(r, *next, m),
            Err(e) => Err(e),
        },
        ContModel::BoolBinaryRight { op, span, next } => match v {
            ValueModel::Bool(y) => deliver(ValueModel::Bool(y), *next, m),
            _ => Err(type_error("`"@ + op_text(op) + "` expected Bool, found "@ + spec_type_name(v), span)),
        },
        ContModel::Not { span, next } => match v {
            ValueModel::Bool(x) => deliver(ValueModel::Bool(!x), *next, m),
            _ => Err(type_error("`!` expected Bool, found "@ + spec_type_name(v), span)),
        },
        ContModel::Try { span, next } => match v {
            ValueModel::ResultOk(inner) => deliver(*inner, *next, m),
            ValueModel::ResultErr(_) => Ok(ExprStepModel::Finished(Flow::Exit(v), m)),
            _ => Err(type_error("lowered `?` expected Result"@, cs)),
        },
        ContModel::ListItems { instruction, block, index, values, next } => match list_items(p, block, 1) {
            None => Err(fault(cs)),
            Some(ids) => {
                let vals = values.push(v);
                let k1 = index + 1;
                if k1 >= ids.len() {
                    deliver(ValueModel::List(vals), *next, m)
                } else if ids[k1 as int] >= instruction {
                    Err(fault(cs))
                } else {
                    eval(ids[k1 as int], ContModel::ListItems { instruction, block, index: k1, values: vals, next })
                }
            },
        },
        ContModel::RecordItems { instruction, block, index, fields, next } => match list_items(p, block, 3) {
            None => Err(fault(cs)),
            Some(w) => if 3 * index + 3 > w.len() || !record_entry_ok(p, instruction, w, index) {
                Err(fault(cs))
            } else {
                match record_put(p, w, index, fields, v, cs) {
                    Err(e) => Err(e),
                    Ok(f1) => {
                        let k1 = index + 1;
                        if 3 * k1 + 3 > w.len() {
                            deliver(ValueModel::Record(f1), *next, m)
                        } else if !record_entry_ok(p, instruction, w, k1) {
                            Err(fault(cs))
                        } else {
                            eval(w[3 * (k1 as int) + 2], ContModel::RecordItems { instruction, block, index: k1, fields: f1, next })
                        }
                    },
                }
            },
        },
        ContModel::CallArguments { instruction, name, block, index, values, span, next } =>
            if (name as int) < p.execution.strings@.len() {
                match list_items(p, block, 2) {
                    None => Err(fault(cs)),
                    Some(w) => {
                        let vals = values.push(v);
                        let k1 = index + 1;
                        if 2 * k1 + 2 > w.len() {
                            Ok(ExprStepModel::Calling { name, args: vals, span, next: *next, m })
                        } else if w[2 * (k1 as int)] != 0 || w[2 * (k1 as int) + 1] >= instruction {
                            Err(fault(cs))
                        } else {
                            eval(w[2 * (k1 as int) + 1], ContModel::CallArguments { instruction, name, block, index: k1, values: vals, span, next })
                        }
                    },
                }
            } else {
                Err(fault(cs))
            },
        ContModel::PipelineSource { instruction, block, span, next } => match list_items(p, block, 1) {
            None => Err(fault(cs)),
            Some(sids) => match v {
                ValueModel::List(items) => match ev_stages(p, b, instruction, sids, 0, PipeState::Items(items), m, cs, span) {
                    Err(e) => Err(e),
                    Ok((Err(x), m1)) => Ok(ExprStepModel::Finished(Flow::Exit(x), m1)),
                    Ok((Ok(st), m1)) => deliver(pipe_value(st), *next, m1),
                },
                _ => Err(type_error("pipeline expected List, found "@ + spec_type_name(v), span)),
            },
        },
        ContModel::WrapOk { next } => deliver(ValueModel::ResultOk(Box::new(v)), *next, m),
        ContModel::WrapErr { next } => deliver(ValueModel::ResultErr(Box::new(v)), *next, m),
        ContModel::WrapTag { name, next } => match v {
            ValueModel::List(vs) => if (name as int) < p.execution.strings@.len() {
                deliver(ValueModel::Tag { name: p.execution.strings@[name as int]@, fields: vs }, *next, m)
            } else {
                Err(fault(cs))
            },
            _ => Err(fault(cs)),
        },
        ContModel::RangeStart { end, span, next } => match v {
            ValueModel::Int(a) => eval(end, ContModel::RangeEnd { start: a, span, next }),
            _ => Err(range_start_error(v, span)),
        },
        ContModel::RangeEnd { start, span, next } => match v {
            ValueModel::Int(c) => deliver(ValueModel::List(range_values(start, c)), *next, m),
            _ => Err(range_end_error(v, span)),
        },
        ContModel::ResultFallback { right, next } => match v {
            ValueModel::ResultOk(inner) => deliver(*inner, *next, m),
            ValueModel::ResultErr(_) | ValueModel::Null => eval(right, *next),
            _ => deliver(v, *next, m),
        },
        ContModel::IfCondition { instruction, block, index, else_value, span, next } => match list_items(p, block, 2) {
            None => Err(fault(cs)),
            Some(pw) => if 2 * index + 2 > pw.len() {
                Err(fault(cs))
            } else {
                match condition_of(v) {
                    None => Err(expected_bool(span)),
                    Some(true) => eval(pw[2 * (index as int) + 1], *next),
                    Some(false) => {
                        let k1 = index + 1;
                        if 2 * k1 + 2 > pw.len() {
                            if else_value < instruction { eval(else_value, *next) } else { Err(fault(cs)) }
                        } else if pw[2 * (k1 as int)] >= instruction || pw[2 * (k1 as int) + 1] >= instruction {
                            Err(fault(cs))
                        } else {
                            eval(pw[2 * (k1 as int)], ContModel::IfCondition { instruction, block, index: k1, else_value, span, next })
                        }
                    },
                }
            },
        },
    }
}

/// One step of expression work.
pub open spec fn step_expr(p: FullProgram, b: nat, w: ExprWorkModel, m: Machine, cs: Span) -> Result<ExprStepModel, ErrorModel> {
    match w {
        ExprWorkModel::Eval { id, next } => step_eval(p, b, id, next, m, cs),
        ExprWorkModel::Deliver { value, next } => step_deliver(p, b, next, value, m, cs),
    }
}

/// A step agrees with the meaning of the work it is taken on.
pub open spec fn expr_step_keeps(p: FullProgram, b: nat, w: ExprWorkModel, m: Machine, cs: Span, r: Result<ExprStepModel, ErrorModel>) -> bool {
    match r {
        Err(e) => sem_expr_work(p, b, w, m, cs) == Err::<(Flow, Machine), ErrorModel>(e),
        Ok(ExprStepModel::Running(w2, m2)) => sem_expr_work(p, b, w, m, cs) == sem_expr_work(p, b, w2, m2, cs),
        Ok(ExprStepModel::Finished(f, m2)) => sem_expr_work(p, b, w, m, cs) == Ok::<(Flow, Machine), ErrorModel>((f, m2)),
        Ok(ExprStepModel::Calling { name, args, span, next, m: m2 }) => sem_expr_work(p, b, w, m, cs) == match named_call(p, b, name, args, span) {
            Err(e) => Err(e),
            Ok(r) => sem_cont(p, b, next, r, m2, cs),
        },
    }
}


proof fn lemma_step_deliver(p: FullProgram, b: nat, k: ContModel, v: ValueModel, m: Machine, cs: Span)
    ensures
        expr_step_keeps(p, b, ExprWorkModel::Deliver { value: v, next: k }, m, cs, step_deliver(p, b, k, v, m, cs)),
{
    reveal(step_deliver);
    match k {
        ContModel::ListItems { instruction, block, index, values, next } => {
            match list_items(p, block, 1) {
                None => {},
                Some(ids) => {
                    let vals = values.push(v);
                    let k1 = index + 1;
                    assert(ev_list(p, b, instruction, ids, k1, vals, m, cs) == (if k1 >= ids.len() {
                        Ok((Ok(vals), m))
                    } else if ids[k1 as int] >= instruction {
                        Err(fault(cs))
                    } else {
                        match ev_expr(p, b, ids[k1 as int], m, cs) {
                            Err(e) => Err(e),
                            Ok((Flow::Exit(x), m1)) => Ok((Err(x), m1)),
                            Ok((Flow::Next(x), m1)) => ev_list(p, b, instruction, ids, k1 + 1, vals.push(x), m1, cs),
                        }
                    }));
                },
            }
        },
        ContModel::RecordItems { instruction, block, index, fields, next } => {
            match list_items(p, block, 3) {
                None => {},
                Some(w) => if 3 * index + 3 <= w.len() && record_entry_ok(p, instruction, w, index) {
                    match record_put(p, w, index, fields, v, cs) {
                        Err(e) => {},
                        Ok(f1) => {
                            let k1 = index + 1;
                            assert(ev_record(p, b, instruction, w, k1, f1, m, cs) == (if 3 * k1 + 3 > w.len() {
                                Ok((Ok(f1), m))
                            } else if !record_entry_ok(p, instruction, w, k1) {
                                Err(fault(cs))
                            } else {
                                match ev_expr(p, b, w[3 * (k1 as int) + 2], m, cs) {
                                    Err(e) => Err(e),
                                    Ok((Flow::Exit(x), m1)) => Ok((Err(x), m1)),
                                    Ok((Flow::Next(x), m1)) => match record_put(p, w, k1, f1, x, cs) {
                                        Err(e) => Err(e),
                                        Ok(f2) => ev_record(p, b, instruction, w, k1 + 1, f2, m1, cs),
                                    },
                                }
                            }));
                        },
                    }
                },
            }
        },
        ContModel::CallArguments { instruction, name, block, index, values, span, next } => {
            if (name as int) < p.execution.strings@.len() {
                match list_items(p, block, 2) {
                    None => {},
                    Some(w) => {
                        let vals = values.push(v);
                        let k1 = index + 1;
                        assert(ev_args(p, b, instruction, w, k1, vals, m, cs) == (if 2 * k1 + 2 > w.len() {
                            Ok((Ok(vals), m))
                        } else if w[2 * (k1 as int)] != 0 || w[2 * (k1 as int) + 1] >= instruction {
                            Err(fault(cs))
                        } else {
                            match ev_expr(p, b, w[2 * (k1 as int) + 1], m, cs) {
                                Err(e) => Err(e),
                                Ok((Flow::Exit(x), m1)) => Ok((Err(x), m1)),
                                Ok((Flow::Next(x), m1)) => ev_args(p, b, instruction, w, k1 + 1, vals.push(x), m1, cs),
                            }
                        }));
                    },
                }
            }
        },
        ContModel::IfCondition { instruction, block, index, else_value, span, next } => {
            match list_items(p, block, 2) {
                None => {},
                Some(pw) => if 2 * index + 2 <= pw.len() {
                    match condition_of(v) {
                        Some(false) => {
                            let k1 = index + 1;
                            if 2 * k1 + 2 <= pw.len() && pw[2 * (k1 as int)] < instruction && pw[2 * (k1 as int) + 1] < instruction {
                                match ev_expr(p, b, pw[2 * (k1 as int)], m, cs) {
                                    Err(e) => {},
                                    Ok((Flow::Exit(x), m1)) => {},
                                    Ok((Flow::Next(x), m1)) => {
                                        assert(ev_if(p, b, instruction, pw, k1, else_value, span, m, cs)
                                            == if_rest(p, b, instruction, pw, k1, else_value, span, x, m1, cs));
                                    },
                                }
                            }
                        },
                        _ => {},
                    }
                },
            }
        },
        _ => {},
    }
}


/// Evaluating an operand with continuation `c` means what the whole does,
/// when handing each operand value to `c` means what the whole does with it.
proof fn lemma_operand(p: FullProgram, b: nat, id: u32, k: ContModel, e: u32, c: ContModel, m: Machine, cs: Span)
    requires
        ev_expr(p, b, e, m, cs) is Err ==> sem_eval(p, b, id, k, m, cs) == ev_expr(p, b, e, m, cs),
        forall|x: ValueModel, m1: Machine| ev_expr(p, b, e, m, cs) == Ok::<(Flow, Machine), ErrorModel>((Flow::Exit(x), m1))
            ==> sem_eval(p, b, id, k, m, cs) == Ok::<(Flow, Machine), ErrorModel>((Flow::Exit(x), m1)),
        forall|x: ValueModel, m1: Machine| ev_expr(p, b, e, m, cs) == Ok::<(Flow, Machine), ErrorModel>((Flow::Next(x), m1))
            ==> sem_eval(p, b, id, k, m, cs) == sem_cont(p, b, c, x, m1, cs),
    ensures
        sem_eval(p, b, id, k, m, cs) == sem_eval(p, b, e, c, m, cs),
{
    match ev_expr(p, b, e, m, cs) {
        Err(x) => {},
        Ok((Flow::Exit(x), m1)) => {},
        Ok((Flow::Next(x), m1)) => {},
    }
}

proof fn lemma_eval_binary(p: FullProgram, b: nat, id: u32, k: ContModel, m: Machine, cs: Span)
    requires
        (id as int) < p.execution.instructions@.len(),
        p.execution.instructions@[id as int].tag == FullTag::ExprBinary,
    ensures
        expr_step_keeps(p, b, ExprWorkModel::Eval { id, next: k }, m, cs, step_eval(p, b, id, k, m, cs)),
{
    reveal(step_eval);
    let w = p.execution.instructions@[id as int].words@;
    if w.len() == 6 && binary_op_of(w[0]) is Some && w[1] < id && w[2] < id {
        let op = binary_op_of(w[0])->0;
        let span = span_of(w.skip(3));
        let c = ContModel::BinaryLeft { instruction: id, op, right: w[2], span, next: Box::new(k) };
        assert(ev_expr(p, b, id, m, cs) == ev_binary(p, b, id, op, w[1], w[2], span, m, cs));
        match ev_expr(p, b, w[1], m, cs) {
            Err(e) => {},
            Ok((Flow::Exit(x), m1)) => {},
            Ok((Flow::Next(lv), m1)) => {
                if op == BinaryOp::And || op == BinaryOp::Or {
                    match lv {
                        ValueModel::Bool(x) => if !decided(op, x) {
                            match ev_expr(p, b, w[2], m1, cs) {
                                Err(e) => {},
                                Ok((Flow::Exit(y), m2)) => {},
                                Ok((Flow::Next(rv), m2)) => {},
                            }
                        },
                        _ => {},
                    }
                } else {
                    match ev_expr(p, b, w[2], m1, cs) {
                        Err(e) => {},
                        Ok((Flow::Exit(y), m2)) => {},
                        Ok((Flow::Next(rv), m2)) => {},
                    }
                }
            },
        }
        lemma_operand(p, b, id, k, w[1], c, m, cs);
    }
}

proof fn lemma_eval_list(p: FullProgram, b: nat, id: u32, k: ContModel, m: Machine, cs: Span)
    requires
        (id as int) < p.execution.instructions@.len(),
        p.execution.instructions@[id as int].tag == FullTag::ExprList,
    ensures
        expr_step_keeps(p, b, ExprWorkModel::Eval { id, next: k }, m, cs, step_eval(p, b, id, k, m, cs)),
{
    reveal(step_eval);
    let w = p.execution.instructions@[id as int].words@;
    if w.len() == 1 && list_items(p, w[0], 1) is Some {
        let ids = list_items(p, w[0], 1)->0;
        if ids.len() > 0 && ids[0] < id {
            let c = ContModel::ListItems { instruction: id, block: w[0], index: 0, values: Seq::empty(), next: Box::new(k) };
            let whole = ev_list(p, b, id, ids, 0, Seq::empty(), m, cs);
            assert(ev_expr(p, b, id, m, cs) == match whole {
                Err(e) => Err(e),
                Ok((Err(v), m1)) => Ok((Flow::Exit(v), m1)),
                Ok((Ok(vals), m1)) => Ok((Flow::Next(ValueModel::List(vals)), m1)),
            });
            assert(sem_eval(p, b, id, k, m, cs) == then_items(p, b, whole, k, cs));
            match ev_expr(p, b, ids[0], m, cs) {
                Err(e) => {},
                Ok((Flow::Exit(x), m1)) => {},
                Ok((Flow::Next(x), m1)) => {
                    assert(whole == ev_list(p, b, id, ids, 1, Seq::<ValueModel>::empty().push(x), m1, cs));
                },
            }
            lemma_operand(p, b, id, k, ids[0], c, m, cs);
        }
    }
}

proof fn lemma_eval_tag(p: FullProgram, b: nat, id: u32, k: ContModel, m: Machine, cs: Span)
    requires
        (id as int) < p.execution.instructions@.len(),
        p.execution.instructions@[id as int].tag == FullTag::ExprTag,
    ensures
        expr_step_keeps(p, b, ExprWorkModel::Eval { id, next: k }, m, cs, step_eval(p, b, id, k, m, cs)),
{
    reveal(step_eval);
    let w = p.execution.instructions@[id as int].words@;
    if w.len() == 2 && (w[0] as int) < p.execution.strings@.len() && list_items(p, w[1], 1) is Some {
        let ids = list_items(p, w[1], 1)->0;
        if ids.len() > 0 && ids[0] < id {
            let t = ContModel::WrapTag { name: w[0], next: Box::new(k) };
            let c = ContModel::ListItems { instruction: id, block: w[1], index: 0, values: Seq::empty(), next: Box::new(t) };
            let whole = ev_list(p, b, id, ids, 0, Seq::empty(), m, cs);
            assert(sem_eval(p, b, id, k, m, cs) == then_items(p, b, whole, t, cs));
            match ev_expr(p, b, ids[0], m, cs) {
                Err(e) => {},
                Ok((Flow::Exit(x), m1)) => {},
                Ok((Flow::Next(x), m1)) => {
                    assert(whole == ev_list(p, b, id, ids, 1, Seq::<ValueModel>::empty().push(x), m1, cs));
                },
            }
            lemma_operand(p, b, id, k, ids[0], c, m, cs);
        }
    }
}

proof fn lemma_eval_record(p: FullProgram, b: nat, id: u32, k: ContModel, m: Machine, cs: Span)
    requires
        (id as int) < p.execution.instructions@.len(),
        p.execution.instructions@[id as int].tag == FullTag::ExprRecord,
    ensures
        expr_step_keeps(p, b, ExprWorkModel::Eval { id, next: k }, m, cs, step_eval(p, b, id, k, m, cs)),
{
    reveal(step_eval);
    let w = p.execution.instructions@[id as int].words@;
    if w.len() == 1 && list_items(p, w[0], 3) is Some {
        let ew = list_items(p, w[0], 3)->0;
        if 3 <= ew.len() && record_entry_ok(p, id, ew, 0) {
            let c = ContModel::RecordItems { instruction: id, block: w[0], index: 0, fields: Seq::empty(), next: Box::new(k) };
            let whole = ev_record(p, b, id, ew, 0, Seq::empty(), m, cs);
            assert(ev_expr(p, b, id, m, cs) == match whole {
                Err(e) => Err(e),
                Ok((Err(v), m1)) => Ok((Flow::Exit(v), m1)),
                Ok((Ok(es), m1)) => Ok((Flow::Next(ValueModel::Record(es)), m1)),
            });
            match ev_expr(p, b, ew[2], m, cs) {
                Err(e) => {},
                Ok((Flow::Exit(x), m1)) => {},
                Ok((Flow::Next(x), m1)) => {
                    assert(whole == match record_put(p, ew, 0, Seq::empty(), x, cs) {
                        Err(e) => Err(e),
                        Ok(f1) => ev_record(p, b, id, ew, 1, f1, m1, cs),
                    });
                },
            }
            lemma_operand(p, b, id, k, ew[2], c, m, cs);
        }
    }
}

proof fn lemma_eval_call(p: FullProgram, b: nat, id: u32, k: ContModel, m: Machine, cs: Span)
    requires
        (id as int) < p.execution.instructions@.len(),
        p.execution.instructions@[id as int].tag == FullTag::ExprCall,
    ensures
        expr_step_keeps(p, b, ExprWorkModel::Eval { id, next: k }, m, cs, step_eval(p, b, id, k, m, cs)),
{
    reveal(step_eval);
    let w = p.execution.instructions@[id as int].words@;
    if w.len() == 5 && (w[0] as int) < p.execution.strings@.len() && list_items(p, w[1], 2) is Some {
        let aw = list_items(p, w[1], 2)->0;
        let span = span_of(w.skip(2));
        if 2 <= aw.len() && aw[0] == 0 && aw[1] < id {
            let c = ContModel::CallArguments {
                instruction: id, name: w[0], block: w[1], index: 0, values: Seq::empty(), span, next: Box::new(k) };
            let whole = ev_args(p, b, id, aw, 0, Seq::empty(), m, cs);
            assert(ev_expr(p, b, id, m, cs) == match whole {
                Err(e) => Err(e),
                Ok((Err(v), m1)) => Ok((Flow::Exit(v), m1)),
                Ok((Ok(args), m1)) => match named_call(p, b, w[0], args, span) {
                    Err(e) => Err(e),
                    Ok(v) => Ok((Flow::Next(v), m1)),
                },
            });
            match ev_expr(p, b, aw[1], m, cs) {
                Err(e) => {},
                Ok((Flow::Exit(x), m1)) => {},
                Ok((Flow::Next(x), m1)) => {
                    assert(whole == ev_args(p, b, id, aw, 1, Seq::<ValueModel>::empty().push(x), m1, cs));
                },
            }
            lemma_operand(p, b, id, k, aw[1], c, m, cs);
        }
    }
}

proof fn lemma_eval_single(p: FullProgram, b: nat, id: u32, k: ContModel, m: Machine, cs: Span)
    requires
        (id as int) < p.execution.instructions@.len(),
        p.execution.instructions@[id as int].tag == FullTag::ExprField
            || p.execution.instructions@[id as int].tag == FullTag::ExprNot
            || p.execution.instructions@[id as int].tag == FullTag::ExprTry
            || p.execution.instructions@[id as int].tag == FullTag::ExprPipeline
            || p.execution.instructions@[id as int].tag == FullTag::ExprOk
            || p.execution.instructions@[id as int].tag == FullTag::ExprErr
            || p.execution.instructions@[id as int].tag == FullTag::ExprResultFallback
            || p.execution.instructions@[id as int].tag == FullTag::ExprRange,
    ensures
        expr_step_keeps(p, b, ExprWorkModel::Eval { id, next: k }, m, cs, step_eval(p, b, id, k, m, cs)),
{
    reveal(step_eval);
    let ins = p.execution.instructions@[id as int];
    let w = ins.words@;
    match ins.tag {
        FullTag::ExprPipeline => if w.len() == 5 && w[0] < id && list_items(p, w[1], 1) is Some {
            let c = ContModel::PipelineSource { instruction: id, block: w[1], span: span_of(w.skip(2)), next: Box::new(k) };
            match ev_expr(p, b, w[0], m, cs) {
                Err(e) => {},
                Ok((Flow::Exit(x), m1)) => {},
                Ok((Flow::Next(x), m1)) => {},
            }
            lemma_operand(p, b, id, k, w[0], c, m, cs);
        },
        FullTag::ExprField => if w.len() == 5 && w[0] < id && (w[1] as int) < p.execution.strings@.len() {
            let c = ContModel::Field { name: w[1], span: span_of(w.skip(2)), next: Box::new(k) };
            match ev_expr(p, b, w[0], m, cs) {
                Err(e) => {},
                Ok((Flow::Exit(x), m1)) => {},
                Ok((Flow::Next(x), m1)) => {},
            }
            lemma_operand(p, b, id, k, w[0], c, m, cs);
        },
        FullTag::ExprNot => if w.len() == 4 && w[0] < id {
            let c = ContModel::Not { span: span_of(w.skip(1)), next: Box::new(k) };
            match ev_expr(p, b, w[0], m, cs) {
                Err(e) => {},
                Ok((Flow::Exit(x), m1)) => {},
                Ok((Flow::Next(x), m1)) => {},
            }
            lemma_operand(p, b, id, k, w[0], c, m, cs);
        },
        FullTag::ExprTry => if w.len() == 4 && w[0] < id {
            let c = ContModel::Try { span: span_of(w.skip(1)), next: Box::new(k) };
            match ev_expr(p, b, w[0], m, cs) {
                Err(e) => {},
                Ok((Flow::Exit(x), m1)) => {},
                Ok((Flow::Next(x), m1)) => {},
            }
            lemma_operand(p, b, id, k, w[0], c, m, cs);
        },
        FullTag::ExprOk | FullTag::ExprErr => if w.len() == 1 && w[0] < id {
            let c = if ins.tag == FullTag::ExprOk { ContModel::WrapOk { next: Box::new(k) } } else { ContModel::WrapErr { next: Box::new(k) } };
            match ev_expr(p, b, w[0], m, cs) {
                Err(e) => {},
                Ok((Flow::Exit(x), m1)) => {},
                Ok((Flow::Next(x), m1)) => {},
            }
            lemma_operand(p, b, id, k, w[0], c, m, cs);
        },
        FullTag::ExprRange => if w.len() == 5 && w[0] < id && w[1] < id {
            let c = ContModel::RangeStart { end: w[1], span: span_of(w.skip(2)), next: Box::new(k) };
            match ev_expr(p, b, w[0], m, cs) {
                Err(e) => {},
                Ok((Flow::Exit(x), m1)) => {},
                Ok((Flow::Next(x), m1)) => {},
            }
            lemma_operand(p, b, id, k, w[0], c, m, cs);
        },
        FullTag::ExprResultFallback => if w.len() == 2 && w[0] < id && w[1] < id {
            let c = ContModel::ResultFallback { right: w[1], next: Box::new(k) };
            match ev_expr(p, b, w[0], m, cs) {
                Err(e) => {},
                Ok((Flow::Exit(x), m1)) => {},
                Ok((Flow::Next(x), m1)) => {},
            }
            lemma_operand(p, b, id, k, w[0], c, m, cs);
        },
        _ => {},
    }
}

proof fn lemma_eval_if(p: FullProgram, b: nat, id: u32, k: ContModel, m: Machine, cs: Span)
    requires
        (id as int) < p.execution.instructions@.len(),
        p.execution.instructions@[id as int].tag == FullTag::ExprIf,
    ensures
        expr_step_keeps(p, b, ExprWorkModel::Eval { id, next: k }, m, cs, step_eval(p, b, id, k, m, cs)),
{
    reveal(step_eval);
    let w = p.execution.instructions@[id as int].words@;
    if w.len() == 5 && w[1] < id && list_items(p, w[0], 2) is Some {
        let pw = list_items(p, w[0], 2)->0;
        let span = span_of(w.skip(2));
        assert(ev_expr(p, b, id, m, cs) == ev_if(p, b, id, pw, 0, w[1], span, m, cs));
        if 2 <= pw.len() && pw[0] < id && pw[1] < id {
            let c = ContModel::IfCondition { instruction: id, block: w[0], index: 0, else_value: w[1], span, next: Box::new(k) };
            match ev_expr(p, b, pw[0], m, cs) {
                Err(e) => {},
                Ok((Flow::Exit(x), m1)) => {},
                Ok((Flow::Next(x), m1)) => {
                    assert(ev_if(p, b, id, pw, 0, w[1], span, m, cs) == if_rest(p, b, id, pw, 0, w[1], span, x, m1, cs));
                },
            }
            lemma_operand(p, b, id, k, pw[0], c, m, cs);
        }
    }
}

proof fn lemma_step_eval(p: FullProgram, b: nat, id: u32, k: ContModel, m: Machine, cs: Span)
    ensures
        expr_step_keeps(p, b, ExprWorkModel::Eval { id, next: k }, m, cs, step_eval(p, b, id, k, m, cs)),
{
    reveal(step_eval);
    if (id as int) < p.execution.instructions@.len() {
        match p.execution.instructions@[id as int].tag {
            FullTag::ExprBinary => lemma_eval_binary(p, b, id, k, m, cs),
            FullTag::ExprList => lemma_eval_list(p, b, id, k, m, cs),
            FullTag::ExprTag => lemma_eval_tag(p, b, id, k, m, cs),
            FullTag::ExprRecord => lemma_eval_record(p, b, id, k, m, cs),
            FullTag::ExprCall => lemma_eval_call(p, b, id, k, m, cs),
            FullTag::ExprField | FullTag::ExprNot | FullTag::ExprTry | FullTag::ExprPipeline
                | FullTag::ExprOk | FullTag::ExprErr | FullTag::ExprResultFallback | FullTag::ExprRange =>
                lemma_eval_single(p, b, id, k, m, cs),
            FullTag::ExprIf => lemma_eval_if(p, b, id, k, m, cs),
            _ => {},
        }
    }
}

/// A step only calls a function whose name is a string of the program.
pub proof fn lemma_calling_name(p: FullProgram, b: nat, w: ExprWorkModel, m: Machine, cs: Span)
    ensures
        step_expr(p, b, w, m, cs) matches Ok(ExprStepModel::Calling { name, .. }) ==> (name as int) < p.execution.strings@.len(),
{
    reveal(step_eval);
    reveal(step_deliver);
}

/// Each step keeps the meaning of the expression work: what is left means
/// exactly what the recursive semantics still has to do, an error of a step
/// is the error of the whole, and a finished step is the whole's outcome.
pub proof fn lemma_expr_step_keeps_meaning(p: FullProgram, b: nat, w: ExprWorkModel, m: Machine, cs: Span)
    ensures
        expr_step_keeps(p, b, w, m, cs, step_expr(p, b, w, m, cs)),
{
    match w {
        ExprWorkModel::Eval { id, next } => lemma_step_eval(p, b, id, next, m, cs),
        ExprWorkModel::Deliver { value, next } => lemma_step_deliver(p, b, next, value, m, cs),
    }
}

/// How a run of expression steps stopped: with the expression's flow, or
/// with its step allowance used up.
pub enum ExprRunModel {
    Finished(Flow, Machine),
    OutOfSteps(ExprWorkModel, Machine),
}

/// Taking up to `fuel` steps of expression work.
pub open spec fn run_expr(p: FullProgram, b: nat, w: ExprWorkModel, m: Machine, cs: Span, fuel: nat) -> Result<ExprRunModel, ErrorModel>
    decreases fuel,
{
    if fuel == 0 {
        Ok(ExprRunModel::OutOfSteps(w, m))
    } else {
        match step_expr(p, b, w, m, cs) {
            Err(e) => Err(e),
            Ok(ExprStepModel::Running(w2, m2)) => run_expr(p, b, w2, m2, cs, (fuel - 1) as nat),
            Ok(ExprStepModel::Finished(f, m2)) => Ok(ExprRunModel::Finished(f, m2)),
            Ok(ExprStepModel::Calling { name, args, span, next, m: m2 }) => match named_call(p, b, name, args, span) {
                Err(e) => Err(e),
                Ok(r) => run_expr(p, b, ExprWorkModel::Deliver { value: r, next }, m2, cs, (fuel - 1) as nat),
            },
        }
    }
}

/// A run of expression steps agrees with the meaning of the work it starts
/// from.
pub open spec fn expr_run_keeps(p: FullProgram, b: nat, w: ExprWorkModel, m: Machine, cs: Span, r: Result<ExprRunModel, ErrorModel>) -> bool {
    match r {
        Err(e) => sem_expr_work(p, b, w, m, cs) == Err::<(Flow, Machine), ErrorModel>(e),
        Ok(ExprRunModel::OutOfSteps(w2, m2)) => sem_expr_work(p, b, w, m, cs) == sem_expr_work(p, b, w2, m2, cs),
        Ok(ExprRunModel::Finished(f, m2)) => sem_expr_work(p, b, w, m, cs) == Ok::<(Flow, Machine), ErrorModel>((f, m2)),
    }
}

/// However many steps are taken, the expression work keeps its meaning.
pub proof fn lemma_expr_run_keeps_meaning(p: FullProgram, b: nat, w: ExprWorkModel, m: Machine, cs: Span, fuel: nat)
    ensures
        expr_run_keeps(p, b, w, m, cs, run_expr(p, b, w, m, cs, fuel)),
    decreases fuel,
{
    if fuel > 0 {
        lemma_expr_step_keeps_meaning(p, b, w, m, cs);
        match step_expr(p, b, w, m, cs) {
            Ok(ExprStepModel::Running(w2, m2)) => lemma_expr_run_keeps_meaning(p, b, w2, m2, cs, (fuel - 1) as nat),
            Ok(ExprStepModel::Calling { name, args, span, next, m: m2 }) => match named_call(p, b, name, args, span) {
                Err(e) => {},
                Ok(r) => lemma_expr_run_keeps_meaning(p, b, ExprWorkModel::Deliver { value: r, next }, m2, cs, (fuel - 1) as nat),
            },
            _ => {},
        }
    }
}

/// The work an expression starts as: evaluate it, then hand its value out.
pub open spec fn start_expr(id: u32) -> ExprWorkModel {
    ExprWorkModel::Eval { id, next: ContModel::Return }
}

/// Starting an expression with nothing waiting for it means evaluating it.
pub proof fn lemma_start_expr(p: FullProgram, b: nat, id: u32, m: Machine, cs: Span)
    ensures
        sem_expr_work(p, b, start_expr(id), m, cs) == ev_expr(p, b, id, m, cs),
{
    match ev_expr(p, b, id, m, cs) {
        Err(e) => {},
        Ok((Flow::Exit(v), m1)) => {},
        Ok((Flow::Next(v), m1)) => {
            assert(sem_cont(p, b, ContModel::Return, v, m1, cs) == Ok::<(Flow, Machine), ErrorModel>((Flow::Next(v), m1)));
        },
    }
}

/// What evaluating instruction `id` on heap continuations gives: the flow
/// and machine it ends with, its error, or the step-limit error when it
/// uses up its steps.
pub open spec fn frames_expr(p: FullProgram, b: nat, id: u32, m: Machine, cs: Span) -> Result<(Flow, Machine), ErrorModel> {
    match run_expr(p, b, start_expr(id), m, cs, MAX_FRAME_STEPS as nat) {
        Err(e) => Err(e),
        Ok(ExprRunModel::Finished(f, m2)) => Ok((f, m2)),
        Ok(ExprRunModel::OutOfSteps(_, _)) => Err(step_limit_error(cs)),
    }
}

/// Evaluating an expression on heap continuations gives what the recursive
/// evaluator gives, whenever it does not use up its steps: the same flow,
/// the same machine, or the same error.
pub proof fn lemma_frames_expr_match_recursion(p: FullProgram, b: nat, id: u32, m: Machine, cs: Span)
    requires
        !(run_expr(p, b, start_expr(id), m, cs, MAX_FRAME_STEPS as nat) matches Ok(ExprRunModel::OutOfSteps(_, _))),
    ensures
        frames_expr(p, b, id, m, cs) == ev_expr(p, b, id, m, cs),
{
    lemma_expr_run_keeps_meaning(p, b, start_expr(id), m, cs, MAX_FRAME_STEPS as nat);
    match ev_expr(p, b, id, m, cs) {
        Err(e) => {},
        Ok((Flow::Exit(v), m1)) => {},
        Ok((Flow::Next(v), m1)) => {
            assert(sem_cont(p, b, ContModel::Return, v, m1, cs) == Ok::<(Flow, Machine), ErrorModel>((Flow::Next(v), m1)));
        },
    }
}

} // verus!

verus! {

/// What is still to be done with the value of the expression being
/// evaluated, as the frame engine holds it.
pub enum FrameContinuation {
    Return,
    Field { name: u32, span: Span, next: Box<FrameContinuation> },
    BinaryLeft { instruction: u32, op: BinaryOp, right: u32, span: Span, next: Box<FrameContinuation> },
    BinaryRight { op: BinaryOp, left: Value, span: Span, next: Box<FrameContinuation> },
    BoolBinaryRight { op: BinaryOp, span: Span, next: Box<FrameContinuation> },
    Not { span: Span, next: Box<FrameContinuation> },
    Try { span: Span, next: Box<FrameContinuation> },
    ListItems { instruction: u32, block: u32, index: usize, values: Vec<Value>, next: Box<FrameContinuation> },
    RecordItems { instruction: u32, block: u32, index: usize, fields: Vec<(String, Value)>, next: Box<FrameContinuation> },
    CallArguments {
        instruction: u32,
        name: u32,
        block: u32,
        index: usize,
        values: Vec<Value>,
        span: Span,
        next: Box<FrameContinuation>,
    },
    PipelineSource { instruction: u32, block: u32, span: Span, next: Box<FrameContinuation> },
    WrapOk { next: Box<FrameContinuation> },
    WrapErr { next: Box<FrameContinuation> },
    ResultFallback { right: u32, next: Box<FrameContinuation> },
    WrapTag { name: u32, next: Box<FrameContinuation> },
    RangeStart { end: u32, span: Span, next: Box<FrameContinuation> },
    RangeEnd { start: i64, span: Span, next: Box<FrameContinuation> },
    IfCondition { instruction: u32, block: u32, index: usize, else_value: u32, span: Span, next: Box<FrameContinuation> },
}

/// The meaning of a continuation.
pub open spec fn cont_model(c: FrameContinuation) -> ContModel
    decreases c,
{
    match c {
        FrameContinuation::Return => ContModel::Return,
        FrameContinuation::Field { name, span, next } => ContModel::Field { name, span, next: Box::new(cont_model(*next)) },
        FrameContinuation::BinaryLeft { instruction, op, right, span, next } =>
            ContModel::BinaryLeft { instruction, op, right, span, next: Box::new(cont_model(*next)) },
        FrameContinuation::BinaryRight { op, left, span, next } =>
            ContModel::BinaryRight { op, left: left@, span, next: Box::new(cont_model(*next)) },
        FrameContinuation::BoolBinaryRight { op, span, next } =>
            ContModel::BoolBinaryRight { op, span, next: Box::new(cont_model(*next)) },
        FrameContinuation::Not { span, next } => ContModel::Not { span, next: Box::new(cont_model(*next)) },
        FrameContinuation::Try { span, next } => ContModel::Try { span, next: Box::new(cont_model(*next)) },
        FrameContinuation::ListItems { instruction, block, index, values, next } => ContModel::ListItems {
            instruction, block, index: index as nat, values: model_list(values@), next: Box::new(cont_model(*next)) },
        FrameContinuation::RecordItems { instruction, block, index, fields, next } => ContModel::RecordItems {
            instruction, block, index: index as nat, fields: model_entries(fields@), next: Box::new(cont_model(*next)) },
        FrameContinuation::CallArguments { instruction, name, block, index, values, span, next } => ContModel::CallArguments {
            instruction, name, block, index: index as nat, values: model_list(values@), span, next: Box::new(cont_model(*next)) },
        FrameContinuation::PipelineSource { instruction, block, span, next } =>
            ContModel::PipelineSource { instruction, block, span, next: Box::new(cont_model(*next)) },
        FrameContinuation::WrapOk { next } => ContModel::WrapOk { next: Box::new(cont_model(*next)) },
        FrameContinuation::WrapErr { next } => ContModel::WrapErr { next: Box::new(cont_model(*next)) },
        FrameContinuation::ResultFallback { right, next } => ContModel::ResultFallback { right, next: Box::new(cont_model(*next)) },
        FrameContinuation::WrapTag { name, next } => ContModel::WrapTag { name, next: Box::new(cont_model(*next)) },
        FrameContinuation::RangeStart { end, span, next } => ContModel::RangeStart { end, span, next: Box::new(cont_model(*next)) },
        FrameContinuation::RangeEnd { start, span, next } => ContModel::RangeEnd { start, span, next: Box::new(cont_model(*next)) },
        FrameContinuation::IfCondition { instruction, block, index, else_value, span, next } => ContModel::IfCondition {
            instruction, block, index: index as nat, else_value, span, next: Box::new(cont_model(*next)) },
    }
}

/// A pending unit of expression work, as the frame engine holds it.
pub enum ExprWork {
    Expr { instruction: u32, next: FrameContinuation },
    Value { value: Value, next: FrameContinuation },
}

/// The meaning of a unit of expression work.
pub open spec fn expr_work_model(w: ExprWork) -> ExprWorkModel {
    match w {
        ExprWork::Expr { instruction, next } => ExprWorkModel::Eval { id: instruction, next: cont_model(next) },
        ExprWork::Value { value, next } => ExprWorkModel::Deliver { value: value@, next: cont_model(next) },
    }
}

/// What one step of expression work did.
pub enum ExprStep {
    Running(ExprWork),
    Finished(IndexedFlow),
    Calling { name: u32, args: Vec<Value>, span: Span, next: FrameContinuation },
}

/// How a run of expression steps stopped.
pub enum ExprRun {
    Finished(IndexedFlow),
    OutOfSteps(ExprWork),
}

/// A step of the executable machine agrees with the step of its meaning.
pub open spec fn expr_step_outcome(
    r: Result<ExprStep, RuntimeError>, s: Result<ExprStepModel, ErrorModel>, slots: Seq<Value>, yielded: Seq<Value>,
) -> bool {
    match s {
        Err(e) => r matches Err(x) && x@ == e,
        Ok(ExprStepModel::Running(w, m)) => r matches Ok(ExprStep::Running(x)) && expr_work_model(x) == w && machine_of(slots, yielded) == m,
        Ok(ExprStepModel::Finished(f, m)) => r matches Ok(ExprStep::Finished(x)) && x@ == f && machine_of(slots, yielded) == m,
        Ok(ExprStepModel::Calling { name, args, span, next, m }) => r matches Ok(ExprStep::Calling { name: n, args: a, span: sp, next: c })
            && n == name && model_list(a@) == args && sp == span && cont_model(c) == next && machine_of(slots, yielded) == m,
    }
}

/// A run of the executable machine agrees with the run of its meaning.
pub open spec fn expr_run_outcome(
    r: Result<ExprRun, RuntimeError>, s: Result<ExprRunModel, ErrorModel>, slots: Seq<Value>, yielded: Seq<Value>,
) -> bool {
    match s {
        Err(e) => r matches Err(x) && x@ == e,
        Ok(ExprRunModel::OutOfSteps(w, m)) => r matches Ok(ExprRun::OutOfSteps(x)) && expr_work_model(x) == w && machine_of(slots, yielded) == m,
        Ok(ExprRunModel::Finished(f, m)) => r matches Ok(ExprRun::Finished(x)) && x@ == f && machine_of(slots, yielded) == m,
    }
}

impl ExplicitFrames {
    /// The work of evaluating `instruction` and handing its value to `next`.
    pub fn push_expr(instruction: u32, next: FrameContinuation) -> (w: ExprWork)
        ensures
            expr_work_model(w) == (ExprWorkModel::Eval { id: instruction, next: cont_model(next) }),
    {
        ExprWork::Expr { instruction, next }
    }

    /// The work of handing `value` to `next`.
    pub fn push_value(value: Value, next: FrameContinuation) -> (w: ExprWork)
        ensures
            expr_work_model(w) == (ExprWorkModel::Deliver { value: value@, next: cont_model(next) }),
    {
        ExprWork::Value { value, next }
    }
}


impl ExplicitFrames {
    /// One step starting the evaluation of `instruction`, whose value `next`
    /// waits for: a constant or a slot is handed on at once; a compound
    /// expression starts its first operand with a continuation for the rest.
    pub fn eval_expr(
        &self,
        evaluator: &mut Evaluator,
        program: &FullProgram,
        instruction: u32,
        next: FrameContinuation,
        slots: &Vec<Value>,
    ) -> (r: Result<ExprStep, RuntimeError>)
        requires
            cache_valid(old(evaluator).indexed_function_cache@, *program),
        ensures
            kept(*old(evaluator), *final(evaluator), *program),
            final(evaluator).stream_items == old(evaluator).stream_items,
            expr_step_outcome(r, step_eval(*program, self.budget as nat, instruction, cont_model(next),
                machine_of(slots@, old(evaluator).stream_items@), self.call_span), slots@, final(evaluator).stream_items@),
    {
        proof { reveal(step_eval); }
        let cs = self.call_span;
        let (tag, w) = match instruction_at(program, instruction) {
            Some(x) => x,
            None => return Err(fault_error(cs)),
        };
        let strings = &program.execution.strings;
        match tag {
            FullTag::ExprNull => if w.len() == 0 {
                Ok(ExprStep::Running(Self::push_value(Value::Null, next)))
            } else {
                Err(fault_error(cs))
            },
            FullTag::ExprUnit => if w.len() == 0 {
                Ok(ExprStep::Running(Self::push_value(Value::Unit, next)))
            } else {
                Err(fault_error(cs))
            },
            FullTag::ExprEmptyMap => if w.len() == 0 {
                let entries: Vec<(String, Value)> = Vec::new();
                assert(model_entries(entries@) =~= Seq::<(Seq<char>, ValueModel)>::empty());
                Ok(ExprStep::Running(Self::push_value(Value::Dict(entries), next)))
            } else {
                Err(fault_error(cs))
            },
            FullTag::ExprBool => if w.len() == 1 && w[0] <= 1 {
                Ok(ExprStep::Running(Self::push_value(Value::Bool(w[0] == 1), next)))
            } else {
                Err(fault_error(cs))
            },
            FullTag::ExprInt => if w.len() == 2 {
                Ok(ExprStep::Running(Self::push_value(Value::Int(int_from_words(w[0], w[1])), next)))
            } else {
                Err(fault_error(cs))
            },
            FullTag::ExprStr => if w.len() == 1 && (w[0] as usize) < strings.len() {
                Ok(ExprStep::Running(Self::push_value(Value::Str(strings[w[0] as usize].clone()), next)))
            } else {
                Err(fault_error(cs))
            },
            FullTag::ExprParam => if w.len() == 1 && (w[0] as usize) < slots.len() {
                Ok(ExprStep::Running(Self::push_value(clone_value(&slots[w[0] as usize]), next)))
            } else {
                Err(fault_error(cs))
            },
            FullTag::ExprField => if w.len() == 5 && w[0] < instruction && (w[1] as usize) < strings.len() {
                let c = FrameContinuation::Field { name: w[1], span: span_at(w, 2), next: Box::new(next) };
                Ok(ExprStep::Running(Self::push_expr(w[0], c)))
            } else {
                Err(fault_error(cs))
            },
            FullTag::ExprBinary => {
                if !(w.len() == 6 && w[1] < instruction && w[2] < instruction) {
                    return Err(fault_error(cs));
                }
                let op = match binary_op_from(w[0]) {
                    Some(op) => op,
                    None => return Err(fault_error(cs)),
                };
                let c = FrameContinuation::BinaryLeft { instruction, op, right: w[2], span: span_at(w, 3), next: Box::new(next) };
                Ok(ExprStep::Running(Self::push_expr(w[1], c)))
            },
            FullTag::ExprNot => if w.len() == 4 && w[0] < instruction {
                let c = FrameContinuation::Not { span: span_at(w, 1), next: Box::new(next) };
                Ok(ExprStep::Running(Self::push_expr(w[0], c)))
            } else {
                Err(fault_error(cs))
            },
            FullTag::ExprTry => if w.len() == 4 && w[0] < instruction {
                let c = FrameContinuation::Try { span: span_at(w, 1), next: Box::new(next) };
                Ok(ExprStep::Running(Self::push_expr(w[0], c)))
            } else {
                Err(fault_error(cs))
            },
            FullTag::ExprList => {
                if w.len() != 1 {
                    return Err(fault_error(cs));
                }
                let bw = match list_block_words(program, w[0], 1) {
                    Some(bw) => bw,
                    None => return Err(fault_error(cs)),
                };
                if bw.len() == 1 {
                    let empty: Vec<Value> = Vec::new();
                    assert(model_list(empty@) =~= Seq::<ValueModel>::empty());
                    return Ok(ExprStep::Running(Self::push_value(Value::List(empty), next)));
                }
                if bw[1] >= instruction {
                    return Err(fault_error(cs));
                }
                let values: Vec<Value> = Vec::new();
                assert(model_list(values@) =~= Seq::<ValueModel>::empty());
                let c = FrameContinuation::ListItems { instruction, block: w[0], index: 0, values, next: Box::new(next) };
                Ok(ExprStep::Running(Self::push_expr(bw[1], c)))
            },
            FullTag::ExprRecord => {
                if w.len() != 1 {
                    return Err(fault_error(cs));
                }
                let bw = match list_block_words(program, w[0], 3) {
                    Some(bw) => bw,
                    None => return Err(fault_error(cs)),
                };
                if bw.len() < 4 {
                    let fields: Vec<(String, Value)> = Vec::new();
                    assert(model_entries(fields@) =~= Seq::<(Seq<char>, ValueModel)>::empty());
                    return Ok(ExprStep::Running(Self::push_value(Value::Record(fields), next)));
                }
                if bw[3] >= instruction || bw[1] > 1 || (bw[1] == 0 && (bw[2] as usize) >= strings.len()) {
                    return Err(fault_error(cs));
                }
                let fields: Vec<(String, Value)> = Vec::new();
                assert(model_entries(fields@) =~= Seq::<(Seq<char>, ValueModel)>::empty());
                let c = FrameContinuation::RecordItems { instruction, block: w[0], index: 0, fields, next: Box::new(next) };
                Ok(ExprStep::Running(Self::push_expr(bw[3], c)))
            },
            FullTag::ExprCall => {
                if !(w.len() == 5 && (w[0] as usize) < strings.len()) {
                    return Err(fault_error(cs));
                }
                let bw = match list_block_words(program, w[1], 2) {
                    Some(bw) => bw,
                    None => return Err(fault_error(cs)),
                };
                let span = span_at(w, 2);
                if bw.len() < 3 {
                    let args: Vec<Value> = Vec::new();
                    assert(model_list(args@) =~= Seq::<ValueModel>::empty());
                    return Ok(ExprStep::Calling { name: w[0], args, span, next });
                }
                if bw[1] != 0 || bw[2] >= instruction {
                    return Err(fault_error(cs));
                }
                let values: Vec<Value> = Vec::new();
                assert(model_list(values@) =~= Seq::<ValueModel>::empty());
                let c = FrameContinuation::CallArguments {
                    instruction, name: w[0], block: w[1], index: 0, values, span, next: Box::new(next) };
                Ok(ExprStep::Running(Self::push_expr(bw[2], c)))
            },
            FullTag::ExprPipeline => {
                if !(w.len() == 5 && w[0] < instruction) {
                    return Err(fault_error(cs));
                }
                if list_block_words(program, w[1], 1).is_none() {
                    return Err(fault_error(cs));
                }
                let c = FrameContinuation::PipelineSource { instruction, block: w[1], span: span_at(w, 2), next: Box::new(next) };
                Ok(ExprStep::Running(Self::push_expr(w[0], c)))
            },
            FullTag::ExprOk | FullTag::ExprErr => {
                if !(w.len() == 1 && w[0] < instruction) {
                    return Err(fault_error(cs));
                }
                let c = if tag == FullTag::ExprOk {
                    FrameContinuation::WrapOk { next: Box::new(next) }
                } else {
                    FrameContinuation::WrapErr { next: Box::new(next) }
                };
                Ok(ExprStep::Running(Self::push_expr(w[0], c)))
            },
            FullTag::ExprResultFallback => {
                if !(w.len() == 2 && w[0] < instruction && w[1] < instruction) {
                    return Err(fault_error(cs));
                }
                let c = FrameContinuation::ResultFallback { right: w[1], next: Box::new(next) };
                Ok(ExprStep::Running(Self::push_expr(w[0], c)))
            },
            FullTag::ExprTag => {
                if !(w.len() == 2 && (w[0] as usize) < program.execution.strings.len()) {
                    return Err(fault_error(cs));
                }
                let bw = match list_block_words(program, w[1], 1) {
                    Some(bw) => bw,
                    None => return Err(fault_error(cs)),
                };
                if bw.len() == 1 {
                    let name = program.execution.strings[w[0] as usize].clone();
                    let empty: Vec<Value> = Vec::new();
                    assert(model_list(empty@) =~= Seq::<ValueModel>::empty());
                    let tv = Value::Tag { name, fields: empty };
                    return Ok(ExprStep::Running(Self::push_value(tv, next)));
                }
                if bw[1] >= instruction {
                    return Err(fault_error(cs));
                }
                let values: Vec<Value> = Vec::new();
                assert(model_list(values@) =~= Seq::<ValueModel>::empty());
                let t = FrameContinuation::WrapTag { name: w[0], next: Box::new(next) };
                assert(cont_model(t) == ContModel::WrapTag { name: w@[0], next: Box::new(cont_model(next)) });
                let c = FrameContinuation::ListItems { instruction, block: w[1], index: 0, values, next: Box::new(t) };
                assert(cont_model(c) == ContModel::ListItems { instruction, block: w@[1], index: 0, values: Seq::empty(),
                    next: Box::new(ContModel::WrapTag { name: w@[0], next: Box::new(cont_model(next)) }) });
                Ok(ExprStep::Running(Self::push_expr(bw[1], c)))
            },
            FullTag::ExprRange => {
                if !(w.len() == 5 && w[0] < instruction && w[1] < instruction) {
                    return Err(fault_error(cs));
                }
                let c = FrameContinuation::RangeStart { end: w[1], span: span_at(w, 2), next: Box::new(next) };
                Ok(ExprStep::Running(Self::push_expr(w[0], c)))
            },
            FullTag::ExprIf => {
                if !(w.len() == 5 && w[1] < instruction) {
                    return Err(fault_error(cs));
                }
                let bw = match list_block_words(program, w[0], 2) {
                    Some(bw) => bw,
                    None => return Err(fault_error(cs)),
                };
                if bw.len() < 3 {
                    return Ok(ExprStep::Running(Self::push_expr(w[1], next)));
                }
                if bw[1] >= instruction || bw[2] >= instruction {
                    return Err(fault_error(cs));
                }
                let c = FrameContinuation::IfCondition {
                    instruction, block: w[0], index: 0, else_value: w[1], span: span_at(w, 2), next: Box::new(next) };
                Ok(ExprStep::Running(Self::push_expr(bw[1], c)))
            },
            _ => Err(fault_error(cs)),
        }
    }
}


impl ExplicitFrames {
    /// One step handing `value` to the continuation `next`: the
    /// continuation does its own work, then starts its next operand or
    /// hands its result on; a `?` on a failure, or a propagation out of an
    /// operand, finishes the expression at once.
    pub fn continue_value(
        &self,
        evaluator: &mut Evaluator,
        program: &FullProgram,
        value: Value,
        next: FrameContinuation,
        slots: &mut Vec<Value>,
    ) -> (r: Result<ExprStep, RuntimeError>)
        requires
            cache_valid(old(evaluator).indexed_function_cache@, *program),
        ensures
            kept(*old(evaluator), *final(evaluator), *program),
            expr_step_outcome(r, step_deliver(*program, self.budget as nat, cont_model(next), value@,
                machine_of(old(slots)@, old(evaluator).stream_items@), self.call_span), final(slots)@, final(evaluator).stream_items@),
    {
        proof { reveal(step_deliver); }
        let cs = self.call_span;
        let strings = &program.execution.strings;
        match next {
            FrameContinuation::Return => Ok(ExprStep::Finished(IndexedFlow::Continue(value))),
            FrameContinuation::Field { name, span, next } => {
                if (name as usize) >= strings.len() {
                    return Err(fault_error(cs));
                }
                let v = evaluator.indexed_field_value(value, strings[name as usize].as_str(), span)?;
                Ok(ExprStep::Running(Self::push_value(v, *next)))
            },
            FrameContinuation::BinaryLeft { instruction, op, right, span, next } => {
                if op == BinaryOp::And || op == BinaryOp::Or {
                    match value {
                        Value::Bool(x) => {
                            if (op == BinaryOp::And && !x) || (op == BinaryOp::Or && x) {
                                Ok(ExprStep::Running(Self::push_value(Value::Bool(x), *next)))
                            } else {
                                Ok(ExprStep::Running(Self::push_expr(right, FrameContinuation::BoolBinaryRight { op, span, next })))
                            }
                        },
                        other => Err(bool_operand_error(op, &other, span)),
                    }
                } else {
                    Ok(ExprStep::Running(Self::push_expr(right, FrameContinuation::BinaryRight { op, left: value, span, next })))
                }
            },
            FrameContinuation::BinaryRight { op, left, span, next } => {
                let v = apply_binary(op, left, value, span)?;
                Ok(ExprStep::Running(Self::push_value(v, *next)))
            },
            FrameContinuation::BoolBinaryRight { op, span, next } => match value {
                Value::Bool(y) => Ok(ExprStep::Running(Self::push_value(Value::Bool(y), *next))),
                other => Err(bool_operand_error(op, &other, span)),
            },
            FrameContinuation::Not { span, next } => match value {
                Value::Bool(x) => Ok(ExprStep::Running(Self::push_value(Value::Bool(!x), *next))),
                other => {
                    proof { reveal_strlit("`!` expected Bool, found "); }
                    let mut message = String::from_str("`!` expected Bool, found ");
                    message.append(other.type_label());
                    Err(type_error_at(message, span))
                },
            },
            FrameContinuation::Try { span, next } => match value {
                Value::ResultOk(inner) => Ok(ExprStep::Running(Self::push_value(*inner, *next))),
                Value::ResultErr(_) => Ok(ExprStep::Finished(IndexedFlow::Break(value))),
                _ => Err(type_error_at(String::from_str("lowered `?` expected Result"), cs)),
            },
            FrameContinuation::ListItems { instruction, block, index, values, next } =>
                self.continue_list(program, instruction, block, index, values, *next, value),
            FrameContinuation::RecordItems { instruction, block, index, fields, next } =>
                self.continue_record(program, instruction, block, index, fields, *next, value),
            FrameContinuation::CallArguments { instruction, name, block, index, values, span, next } =>
                self.continue_call(evaluator, program, instruction, name, block, index, values, span, *next, value),
            FrameContinuation::PipelineSource { instruction, block, span, next } =>
                self.continue_pipeline(evaluator, program, instruction, block, span, *next, value, slots),
            FrameContinuation::WrapOk { next } => Ok(ExprStep::Running(Self::push_value(Value::ResultOk(Box::new(value)), *next))),
            FrameContinuation::WrapErr { next } => Ok(ExprStep::Running(Self::push_value(Value::ResultErr(Box::new(value)), *next))),
            FrameContinuation::WrapTag { name, next } => match value {
                Value::List(vs) => {
                    if (name as usize) < program.execution.strings.len() {
                        let name = program.execution.strings[name as usize].clone();
                        Ok(ExprStep::Running(Self::push_value(Value::Tag { name, fields: vs }, *next)))
                    } else {
                        Err(fault_error(cs))
                    }
                },
                _ => Err(fault_error(cs)),
            },
            FrameContinuation::RangeStart { end, span, next } => match value {
                Value::Int(a) => Ok(ExprStep::Running(Self::push_expr(end, FrameContinuation::RangeEnd { start: a, span, next }))),
                other => Err(range_start_error_at(&other, span)),
            },
            FrameContinuation::RangeEnd { start, span, next } => match value {
                Value::Int(c) => Ok(ExprStep::Running(Self::push_value(Value::List(range_list(start, c)), *next))),
                other => Err(range_end_error_at(&other, span)),
            },
            FrameContinuation::ResultFallback { right, next } => match value {
                Value::ResultOk(inner) => Ok(ExprStep::Running(Self::push_value(*inner, *next))),
                Value::ResultErr(_) | Value::Null => Ok(ExprStep::Running(Self::push_expr(right, *next))),
                other => Ok(ExprStep::Running(Self::push_value(other, *next))),
            },
            FrameContinuation::IfCondition { instruction, block, index, else_value, span, next } =>
                self.continue_if(program, instruction, block, index, else_value, span, *next, value),
        }
    }
}

impl ExplicitFrames {
    /// Item `index` of a list literal has its value: the next item starts,
    /// or the list is handed on.
    fn continue_list(
        &self,
        program: &FullProgram,
        instruction: u32,
        block: u32,
        index: usize,
        values: Vec<Value>,
        next: FrameContinuation,
        value: Value,
    ) -> (r: Result<ExprStep, RuntimeError>)
        ensures
            forall|b: nat, m: Machine, slots: Seq<Value>, yielded: Seq<Value>| machine_of(slots, yielded) == m ==>
                expr_step_outcome(r, step_deliver(*program, b, ContModel::ListItems {
                    instruction, block, index: index as nat, values: model_list(values@), next: Box::new(cont_model(next)) },
                    value@, m, self.call_span), slots, yielded),
    {
        proof { reveal(step_deliver); }
        let cs = self.call_span;
        let bw = match list_block_words(program, block, 1) {
            Some(bw) => bw,
            None => return Err(fault_error(cs)),
        };
        let n = bw.len() - 1;
        let ghost before = model_list(values@);
        let mut values = values;
        values.push(value);
        assert(model_list(values@) =~= before.push(value@));
        if index >= n || index + 1 >= n {
            return Ok(ExprStep::Running(Self::push_value(Value::List(values), next)));
        }
        let k1 = index + 1;
        let e = bw[k1 + 1];
        if e >= instruction {
            return Err(fault_error(cs));
        }
        let c = FrameContinuation::ListItems { instruction, block, index: k1, values, next: Box::new(next) };
        Ok(ExprStep::Running(Self::push_expr(e, c)))
    }

    /// Entry `index` of a record literal has its value: it is put into the
    /// fields, then the next entry starts or the record is handed on.
    fn continue_record(
        &self,
        program: &FullProgram,
        instruction: u32,
        block: u32,
        index: usize,
        fields: Vec<(String, Value)>,
        next: FrameContinuation,
        value: Value,
    ) -> (r: Result<ExprStep, RuntimeError>)
        ensures
            forall|b: nat, m: Machine, slots: Seq<Value>, yielded: Seq<Value>| machine_of(slots, yielded) == m ==>
                expr_step_outcome(r, step_deliver(*program, b, ContModel::RecordItems {
                    instruction, block, index: index as nat, fields: model_entries(fields@), next: Box::new(cont_model(next)) },
                    value@, m, self.call_span), slots, yielded),
    {
        proof { reveal(step_deliver); }
        let cs = self.call_span;
        let strings = &program.execution.strings;
        let bw = match list_block_words(program, block, 3) {
            Some(bw) => bw,
            None => return Err(fault_error(cs)),
        };
        let n = bw.len() - 1;
        if (index as u128) * 3 + 3 > n as u128 {
            return Err(fault_error(cs));
        }
        let mode = bw[3 * index + 1];
        let key = bw[3 * index + 2];
        if bw[3 * index + 3] >= instruction || mode > 1 || (mode == 0 && (key as usize) >= strings.len()) {
            return Err(fault_error(cs));
        }
        let entry = if mode == 0 {
            crate::interp::FrameRecordEntry::Field { name: strings[key as usize].clone() }
        } else {
            crate::interp::FrameRecordEntry::Spread
        };
        let mut fields = fields;
        append_record_entry(&mut fields, &entry, value, cs)?;
        let k1 = index + 1;
        if (k1 as u128) * 3 + 3 > n as u128 {
            return Ok(ExprStep::Running(Self::push_value(Value::Record(fields), next)));
        }
        let m1 = bw[3 * k1 + 1];
        let e = bw[3 * k1 + 3];
        if e >= instruction || m1 > 1 || (m1 == 0 && (bw[3 * k1 + 2] as usize) >= strings.len()) {
            return Err(fault_error(cs));
        }
        let c = FrameContinuation::RecordItems { instruction, block, index: k1, fields, next: Box::new(next) };
        Ok(ExprStep::Running(Self::push_expr(e, c)))
    }

    /// Argument `index` of a call has its value: the next argument starts,
    /// or, with all of them, the function is called and its value handed on.
    fn continue_call(
        &self,
        evaluator: &mut Evaluator,
        program: &FullProgram,
        instruction: u32,
        name: u32,
        block: u32,
        index: usize,
        values: Vec<Value>,
        span: Span,
        next: FrameContinuation,
        value: Value,
    ) -> (r: Result<ExprStep, RuntimeError>)
        requires
            cache_valid(old(evaluator).indexed_function_cache@, *program),
        ensures
            kept(*old(evaluator), *final(evaluator), *program),
            final(evaluator).stream_items == old(evaluator).stream_items,
            forall|m: Machine, slots: Seq<Value>| machine_of(slots, old(evaluator).stream_items@) == m ==>
                expr_step_outcome(r, step_deliver(*program, self.budget as nat, ContModel::CallArguments {
                    instruction, name, block, index: index as nat, values: model_list(values@), span, next: Box::new(cont_model(next)) },
                    value@, m, self.call_span), slots, final(evaluator).stream_items@),
    {
        proof { reveal(step_deliver); }
        let cs = self.call_span;
        if (name as usize) >= program.execution.strings.len() {
            return Err(fault_error(cs));
        }
        let bw = match list_block_words(program, block, 2) {
            Some(bw) => bw,
            None => return Err(fault_error(cs)),
        };
        let n = bw.len() - 1;
        let ghost before = model_list(values@);
        let mut values = values;
        values.push(value);
        assert(model_list(values@) =~= before.push(value@));
        if index >= n || (index as u128) * 2 + 4 > n as u128 {
            return Ok(ExprStep::Calling { name, args: values, span, next });
        }
        let k1 = index + 1;
        let mode = bw[2 * k1 + 1];
        let e = bw[2 * k1 + 2];
        if mode != 0 || e >= instruction {
            return Err(fault_error(cs));
        }
        let c = FrameContinuation::CallArguments { instruction, name, block, index: k1, values, span, next: Box::new(next) };
        Ok(ExprStep::Running(Self::push_expr(e, c)))
    }

    /// A pipeline's source has its value: it must be a list, and the
    /// stages run over it.
    fn continue_pipeline(
        &self,
        evaluator: &mut Evaluator,
        program: &FullProgram,
        instruction: u32,
        block: u32,
        span: Span,
        next: FrameContinuation,
        value: Value,
        slots: &mut Vec<Value>,
    ) -> (r: Result<ExprStep, RuntimeError>)
        requires
            cache_valid(old(evaluator).indexed_function_cache@, *program),
        ensures
            kept(*old(evaluator), *final(evaluator), *program),
            expr_step_outcome(r, step_deliver(*program, self.budget as nat, ContModel::PipelineSource {
                instruction, block, span, next: Box::new(cont_model(next)) },
                value@, machine_of(old(slots)@, old(evaluator).stream_items@), self.call_span), final(slots)@, final(evaluator).stream_items@),
    {
        proof { reveal(step_deliver); }
        let cs = self.call_span;
        let bw = match list_block_words(program, block, 1) {
            Some(bw) => bw,
            None => return Err(fault_error(cs)),
        };
        match value {
            Value::List(items) => {
                match evaluator.eval_indexed_stages(program, self.budget, instruction, bw, PipeItems::Items(items), slots, cs, span)? {
                    Ok(PipeItems::Items(items)) => Ok(ExprStep::Running(Self::push_value(Value::List(items), next))),
                    Ok(PipeItems::Scalar(v)) => Ok(ExprStep::Running(Self::push_value(v, next))),
                    Err(v) => Ok(ExprStep::Finished(IndexedFlow::Break(v))),
                }
            },
            other => {
                proof { reveal_strlit("pipeline expected List, found "); }
                let mut message = String::from_str("pipeline expected List, found ");
                message.append(other.type_label());
                Err(type_error_at(message, span))
            },
        }
    }
}

impl ExplicitFrames {
    /// The condition of branch `index` of an `if` expression has its value:
    /// the branch's value starts when it holds, else the next branch's
    /// condition, or, after the last, the `else` value.
    fn continue_if(
        &self,
        program: &FullProgram,
        instruction: u32,
        block: u32,
        index: usize,
        else_value: u32,
        span: Span,
        next: FrameContinuation,
        value: Value,
    ) -> (r: Result<ExprStep, RuntimeError>)
        ensures
            forall|b: nat, m: Machine, slots: Seq<Value>, yielded: Seq<Value>| machine_of(slots, yielded) == m ==>
                expr_step_outcome(r, step_deliver(*program, b, ContModel::IfCondition {
                    instruction, block, index: index as nat, else_value, span, next: Box::new(cont_model(next)) },
                    value@, m, self.call_span), slots, yielded),
    {
        proof { reveal(step_deliver); }
        let cs = self.call_span;
        let bw = match list_block_words(program, block, 2) {
            Some(bw) => bw,
            None => return Err(fault_error(cs)),
        };
        let n = bw.len() - 1;
        if index >= n || (index as u128) * 2 + 2 > n as u128 {
            return Err(fault_error(cs));
        }
        if frame_condition_bool(value, span)? {
            return Ok(ExprStep::Running(Self::push_expr(bw[2 * index + 2], next)));
        }
        let k1 = index + 1;
        if (k1 as u128) * 2 + 2 > n as u128 {
            if else_value < instruction {
                return Ok(ExprStep::Running(Self::push_expr(else_value, next)));
            }
            return Err(fault_error(cs));
        }
        let c = bw[2 * k1 + 1];
        let v = bw[2 * k1 + 2];
        if c >= instruction || v >= instruction {
            return Err(fault_error(cs));
        }
        let cont = FrameContinuation::IfCondition { instruction, block, index: k1, else_value, span, next: Box::new(next) };
        Ok(ExprStep::Running(Self::push_expr(c, cont)))
    }
}

/// The error for an operand of `&&` or `||` that is not a boolean.
fn bool_operand_error(op: BinaryOp, v: &Value, span: Span) -> (e: RuntimeError)
    ensures
        e@ == type_error("`"@ + op_text(op) + "` expected Bool, found "@ + spec_type_name(v@), span),
{
    proof {
        reveal_strlit("`");
        reveal_strlit("` expected Bool, found ");
    }
    let mut message = String::from_str("`");
    message.append(op_symbol(op));
    message.append("` expected Bool, found ");
    message.append(v.type_label());
    type_error_at(message, span)
}


impl ExplicitFrames {
    /// One step of expression work.
    pub fn step_expr(
        &self,
        evaluator: &mut Evaluator,
        program: &FullProgram,
        work: ExprWork,
        slots: &mut Vec<Value>,
    ) -> (r: Result<ExprStep, RuntimeError>)
        requires
            cache_valid(old(evaluator).indexed_function_cache@, *program),
        ensures
            kept(*old(evaluator), *final(evaluator), *program),
            expr_step_outcome(r, step_expr(*program, self.budget as nat, expr_work_model(work),
                machine_of(old(slots)@, old(evaluator).stream_items@), self.call_span), final(slots)@, final(evaluator).stream_items@),
    {
        match work {
            ExprWork::Expr { instruction, next } => self.eval_expr(evaluator, program, instruction, next, slots),
            ExprWork::Value { value, next } => self.continue_value(evaluator, program, value, next, slots),
        }
    }

    /// Runs expression work for up to `max_steps` steps, until the
    /// expression finishes.
    pub fn run_expression(
        &self,
        evaluator: &mut Evaluator,
        program: &FullProgram,
        work: ExprWork,
        slots: &mut Vec<Value>,
        max_steps: u64,
    ) -> (r: Result<ExprRun, RuntimeError>)
        requires
            cache_valid(old(evaluator).indexed_function_cache@, *program),
        ensures
            kept(*old(evaluator), *final(evaluator), *program),
            expr_run_outcome(r, run_expr(*program, self.budget as nat, expr_work_model(work),
                machine_of(old(slots)@, old(evaluator).stream_items@), self.call_span, max_steps as nat),
                final(slots)@, final(evaluator).stream_items@),
    {
        let ghost start = run_expr(*program, self.budget as nat, expr_work_model(work),
            machine_of(slots@, evaluator.stream_items@), self.call_span, max_steps as nat);
        let mut cur = work;
        let mut fuel = max_steps;
        loop
            invariant
                kept(*old(evaluator), *evaluator, *program),
                start == run_expr(*program, self.budget as nat, expr_work_model(work),
                    machine_of(old(slots)@, old(evaluator).stream_items@), self.call_span, max_steps as nat),
                start == run_expr(*program, self.budget as nat, expr_work_model(cur),
                    machine_of(slots@, evaluator.stream_items@), self.call_span, fuel as nat),
            decreases fuel,
        {
            if fuel == 0 {
                return Ok(ExprRun::OutOfSteps(cur));
            }
            proof {
                lemma_calling_name(*program, self.budget as nat, expr_work_model(cur), machine_of(slots@, evaluator.stream_items@), self.call_span);
            }
            match self.step_expr(evaluator, program, cur, slots)? {
                ExprStep::Running(w) => {
                    cur = w;
                },
                ExprStep::Finished(flow) => return Ok(ExprRun::Finished(flow)),
                ExprStep::Calling { name, args, span, next } => {
                    let key = crate::ir::LoweredFunctionKey { name: crate::ir::Name { id: name } };
                    let v = evaluator.eval_indexed_named_call(program, self.budget, key, args, span)?;
                    cur = Self::push_value(v, next);
                },
            }
            fuel = fuel - 1;
        }
    }
}

impl Evaluator {
    /// Evaluates instruction `instruction` in the frame `slots` on heap
    /// continuations rather than by recursion, with `budget` calls of depth
    /// left.
    pub fn eval_indexed_expr_on_frames(
        &mut self,
        program: &FullProgram,
        budget: u32,
        instruction: u32,
        slots: &mut Vec<Value>,
        call_span: Span,
    ) -> (r: Result<IndexedFlow, RuntimeError>)
        requires
            cache_valid(old(self).indexed_function_cache@, *program),
        ensures
            kept(*old(self), *final(self), *program),
            flow_outcome(r, frames_expr(*program, budget as nat, instruction,
                machine_of(old(slots)@, old(self).stream_items@), call_span), final(slots)@, final(self).stream_items@),
    {
        let frames = ExplicitFrames { budget, call_span, producer: false };
        let work = ExplicitFrames::push_expr(instruction, FrameContinuation::Return);
        match frames.run_expression(self, program, work, slots, MAX_FRAME_STEPS)? {
            ExprRun::Finished(flow) => Ok(flow),
            ExprRun::OutOfSteps(_) => Err(RuntimeError::new("step-limit", "frame ran out of steps").with_span(call_span)),
        }
    }
}

} // verus!
