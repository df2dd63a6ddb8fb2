//! What running the indexed IR means: a total definition of evaluating
//! expressions, statements, pipelines and calls over value models, the slots
//! of the running frame and the items it has yielded.
//!
//! An instruction may only refer to instructions with smaller indices, and
//! each call consumes one unit of a depth budget, so every evaluation ends.
//! IR that breaks its layout is a fault.
use vstd::prelude::*;
use crate::value::{Span, ErrorModel, err_model, ValueModel, spec_type_name, entries_lookup};
use crate::ir::{
    FullProgram, FullTag, FullStageTag, BinaryOp, binary_op_of, assign_op_of, LoweredFunctionKind, LoweredType,
    BLOCK_LIST,
};
use crate::decode::{ir_message, i64_of_words};
use crate::blocks::statement_block_of;
use crate::serial::spec_stage_name;
use crate::runs::span_of;
use crate::text::decimal;

verus! {

/// How an expression ended: with a value, or by propagating one out of the
/// enclosing function (`?` on an error).
pub enum Flow {
    Next(ValueModel),
    Exit(ValueModel),
}

/// How a statement ended.
pub enum StmtEnd {
    Done,
    Return(ValueModel),
    Propagate(ValueModel),
    Break,
    Continue,
}

/// The state a frame evaluates in: its slots and the items it has yielded.
pub struct Machine {
    pub slots: Seq<ValueModel>,
    pub yielded: Seq<ValueModel>,
}

/// The state of a pipeline between stages.
pub enum PipeState {
    Items(Seq<ValueModel>),
    Scalar(ValueModel),
}

/// The fault raised for IR that breaks its layout.
pub open spec fn fault(cs: Span) -> ErrorModel {
    err_model("indexed-ir"@, ir_message("malformed instruction"@), Some(cs))
}

pub open spec fn type_error(message: Seq<char>, span: Span) -> ErrorModel {
    err_model("type-error"@, message, Some(span))
}

/// The error for a `yield` in a frame that is not a stream producer.
pub open spec fn yield_error(cs: Span) -> ErrorModel {
    err_model("control-flow"@, "yield outside stream producer"@, Some(cs))
}

/// The error for a call nested deeper than the depth budget allows.
pub open spec fn depth_error(span: Span) -> ErrorModel {
    err_model("stack-overflow"@, "indexed evaluation is nested too deeply"@, Some(span))
}

/// The item words of list block `b`, when its first word counts items of
/// `width` words each and the rest are exactly those items.
pub open spec fn list_items(p: FullProgram, b: u32, width: nat) -> Option<Seq<u32>> {
    if p.execution.block_ok(b, BLOCK_LIST) {
        let w = p.execution.blocks@[b as int].words@;
        if w.len() > 0 && w.len() - 1 == w[0] as nat * width {
            Some(w.drop_first())
        } else {
            None
        }
    } else {
        None
    }
}

/// The machine with slot `i` set to `v`.
pub open spec fn set_slot(m: Machine, i: int, v: ValueModel) -> Machine {
    Machine { slots: m.slots.update(i, v), yielded: m.yielded }
}

/// A field of a value: a record's or module's entry, an error's kind or
/// message, a regex's pattern, a status's success.
pub open spec fn field_value(base: ValueModel, name: Seq<char>, span: Span) -> Result<ValueModel, ErrorModel> {
    let missing = err_model("missing-field"@, name, Some(span));
    match base {
        ValueModel::Record(e) => match entries_lookup(e, name) {
            Some(v) => Ok(v),
            None => Err(missing),
        },
        ValueModel::Module(e) => match entries_lookup(e, name) {
            Some(v) => Ok(v),
            None => Err(missing),
        },
        ValueModel::Error { kind, message, .. } => if name == "kind"@ {
            Ok(ValueModel::Str(kind))
        } else if name == "message"@ {
            Ok(ValueModel::Str(message))
        } else {
            Err(missing)
        },
        ValueModel::RunError { kind, message } => if name == "kind"@ {
            Ok(ValueModel::Str(kind))
        } else if name == "message"@ {
            Ok(ValueModel::Str(message))
        } else {
            Err(missing)
        },
        ValueModel::Regex(pattern) => if name == "pattern"@ {
            Ok(ValueModel::Str(pattern))
        } else {
            Err(missing)
        },
        ValueModel::Status { success, kind, segments } => if name == "ok"@ || name == "success"@ {
            Ok(ValueModel::Bool(success))
        } else if name == "kind"@ {
            Ok(ValueModel::Str(kind))
        } else if name == "segments"@ {
            Ok(ValueModel::List(segments))
        } else {
            Err(missing)
        },
        ValueModel::ProcessHandle { pid, command, argv, detached } => if name == "pid"@ {
            Ok(ValueModel::Int(pid))
        } else if name == "command"@ {
            Ok(ValueModel::Str(command))
        } else if name == "argv"@ {
            Ok(ValueModel::List(argv.map_values(|a: Seq<char>| ValueModel::Str(a))))
        } else if name == "detached"@ {
            Ok(ValueModel::Bool(detached))
        } else {
            Err(missing)
        },
        _ => Err(missing),
    }
}

/// The operator's source text.
pub open spec fn op_text(op: BinaryOp) -> Seq<char> {
    match op {
        BinaryOp::Add => "+"@,
        BinaryOp::Sub => "-"@,
        BinaryOp::Mul => "*"@,
        BinaryOp::Div => "/"@,
        BinaryOp::Rem => "%"@,
        BinaryOp::Eq => "=="@,
        BinaryOp::Ne => "!="@,
        BinaryOp::Lt => "<"@,
        BinaryOp::Le => "<="@,
        BinaryOp::Gt => ">"@,
        BinaryOp::Ge => ">="@,
        BinaryOp::And => "&&"@,
        BinaryOp::Or => "||"@,
    }
}

pub open spec fn combine_error(op: BinaryOp, l: ValueModel, r: ValueModel, span: Span) -> ErrorModel {
    type_error("`"@ + op_text(op) + "` cannot combine "@ + spec_type_name(l) + " and "@ + spec_type_name(r), span)
}

pub open spec fn overflow_error(span: Span) -> ErrorModel {
    err_model("overflow"@, "integer overflow"@, Some(span))
}

/// An integer result, or an overflow where it leaves the `Int` range.
pub open spec fn int_result(n: int, span: Span) -> Result<ValueModel, ErrorModel> {
    if i64::MIN <= n <= i64::MAX {
        Ok(ValueModel::Int(n as i64))
    } else {
        Err(overflow_error(span))
    }
}

/// The field `name` of a record or a module, if it has one.
pub open spec fn record_field(v: ValueModel, name: Seq<char>) -> Option<ValueModel> {
    match v {
        ValueModel::Record(e) => entries_lookup(e, name),
        ValueModel::Module(e) => entries_lookup(e, name),
        _ => None,
    }
}

/// The error for a destructured field that the value does not have.
pub open spec fn no_field_error(name: Seq<char>, span: Span) -> ErrorModel {
    err_model("field-access"@, "record has no field `"@ + name + "`"@, Some(span))
}

/// Binding the fields named by the (string, slot) pairs `fw[2 * k..]` of
/// `v` to their slots, in order.
pub open spec fn bind_fields(p: FullProgram, fw: Seq<u32>, k: nat, v: ValueModel, sl: Seq<ValueModel>, span: Span, cs: Span)
    -> Result<Seq<ValueModel>, ErrorModel>
    decreases fw.len() - 2 * k,
{
    if 2 * k + 2 > fw.len() {
        Ok(sl)
    } else if (fw[2 * k as int] as int) >= p.execution.strings@.len() || (fw[(2 * k + 1) as int] as int) >= sl.len() {
        Err(fault(cs))
    } else {
        let name = p.execution.strings@[fw[2 * k as int] as int]@;
        match record_field(v, name) {
            None => Err(no_field_error(name, span)),
            Some(x) => bind_fields(p, fw, k + 1, v, sl.update(fw[(2 * k + 1) as int] as int, x), span, cs),
        }
    }
}

/// When statement `s` is a compound assignment whose operator fails on the
/// slot and the value (a division by zero, an overflow, operands it cannot
/// combine): the slots as they stood once the value was computed, which the
/// failed statement leaves as they are, its own slot included.
pub open spec fn failed_assignment_slots(p: FullProgram, b: nat, s: u32, m: Machine, cs: Span) -> Option<Seq<ValueModel>> {
    if s as int >= p.execution.instructions@.len() {
        None
    } else {
        let ins = p.execution.instructions@[s as int];
        let w = ins.words@;
        if ins.tag == FullTag::StmtAssign && w.len() == 6 && w[2] < s {
            match assign_op_of(w[1]) {
                Some(Some(op)) => match ev_expr(p, b, w[2], m, cs) {
                    Ok((Flow::Next(v), m1)) => if (w[0] as int) < m1.slots.len()
                        && binary_value(op, m1.slots[w[0] as int], v, span_of(w.skip(3))) is Err {
                        Some(m1.slots)
                    } else {
                        None
                    },
                    _ => None,
                },
                _ => None,
            }
        } else {
            None
        }
    }
}

/// The error for a guard whose `else` block runs to its end.
pub open spec fn guard_error(span: Span) -> ErrorModel {
    err_model("guard"@, "guard else block must diverge"@, Some(span))
}

/// The error for a division or remainder by zero.
pub open spec fn division_by_zero_error(span: Span) -> ErrorModel {
    err_model("division-by-zero"@, "division by zero"@, Some(span))
}

/// The quotient of `a` by `b` rounded toward zero.
pub open spec fn trunc_div(a: int, b: int) -> int {
    let q = vstd::math::abs(a) as int / vstd::math::abs(b) as int;
    if (a < 0) == (b < 0) { q } else { -q }
}

/// The remainder of `a` by `b` that goes with `trunc_div`: it has the sign
/// of `a`.
pub open spec fn trunc_rem(a: int, b: int) -> int {
    let r = vstd::math::abs(a) as int % vstd::math::abs(b) as int;
    if a < 0 { -r } else { r }
}

/// A strict binary operator applied to two values.
pub open spec fn binary_value(op: BinaryOp, l: ValueModel, r: ValueModel, span: Span) -> Result<ValueModel, ErrorModel> {
    match op {
        BinaryOp::Add => match (l, r) {
            (ValueModel::Int(a), ValueModel::Int(b)) => int_result(a + b, span),
            (ValueModel::Str(a), ValueModel::Str(b)) => Ok(ValueModel::Str(a + b)),
            (ValueModel::List(a), ValueModel::List(b)) => Ok(ValueModel::List(a + b)),
            _ => Err(combine_error(op, l, r, span)),
        },
        BinaryOp::Sub => match (l, r) {
            (ValueModel::Int(a), ValueModel::Int(b)) => int_result(a - b, span),
            _ => Err(combine_error(op, l, r, span)),
        },
        BinaryOp::Mul => match (l, r) {
            (ValueModel::Int(a), ValueModel::Int(b)) => int_result(a * b, span),
            _ => Err(combine_error(op, l, r, span)),
        },
        BinaryOp::Div => match (l, r) {
            (ValueModel::Int(a), ValueModel::Int(b)) =>
                if b == 0 { Err(division_by_zero_error(span)) } else { int_result(trunc_div(a as int, b as int), span) },
            _ => Err(combine_error(op, l, r, span)),
        },
        BinaryOp::Rem => match (l, r) {
            (ValueModel::Int(a), ValueModel::Int(b)) =>
                if b == 0 { Err(division_by_zero_error(span)) } else { int_result(trunc_rem(a as int, b as int), span) },
            _ => Err(combine_error(op, l, r, span)),
        },
        BinaryOp::Eq => Ok(ValueModel::Bool(l == r)),
        BinaryOp::Ne => Ok(ValueModel::Bool(l != r)),
        BinaryOp::Lt => match (l, r) {
            (ValueModel::Int(a), ValueModel::Int(b)) => Ok(ValueModel::Bool(a < b)),
            _ => Err(combine_error(op, l, r, span)),
        },
        BinaryOp::Le => match (l, r) {
            (ValueModel::Int(a), ValueModel::Int(b)) => Ok(ValueModel::Bool(a <= b)),
            _ => Err(combine_error(op, l, r, span)),
        },
        BinaryOp::Gt => match (l, r) {
            (ValueModel::Int(a), ValueModel::Int(b)) => Ok(ValueModel::Bool(a > b)),
            _ => Err(combine_error(op, l, r, span)),
        },
        BinaryOp::Ge => match (l, r) {
            (ValueModel::Int(a), ValueModel::Int(b)) => Ok(ValueModel::Bool(a >= b)),
            _ => Err(combine_error(op, l, r, span)),
        },
        BinaryOp::And | BinaryOp::Or => Err(combine_error(op, l, r, span)),
    }
}

/// The truth a condition value stands for: a boolean, or a status's success.
pub open spec fn condition_of(v: ValueModel) -> Option<bool> {
    match v {
        ValueModel::Bool(b) => Some(b),
        ValueModel::Status { success, .. } => Some(success),
        _ => None,
    }
}

pub open spec fn expected_bool(span: Span) -> ErrorModel {
    type_error("lowered expression expected Bool"@, span)
}

/// The position of the first entry named `key`, searching from `i`.
pub open spec fn entry_position(acc: Seq<(Seq<char>, ValueModel)>, key: Seq<char>, i: int) -> Option<int>
    decreases acc.len() - i,
{
    if i < 0 || i >= acc.len() {
        None
    } else if acc[i].0 == key {
        Some(i)
    } else {
        entry_position(acc, key, i + 1)
    }
}

/// `acc` with `key` set to `v`: replaced in place where it is present,
/// appended where it is not.
pub open spec fn put_entry(acc: Seq<(Seq<char>, ValueModel)>, key: Seq<char>, v: ValueModel) -> Seq<(Seq<char>, ValueModel)> {
    match entry_position(acc, key, 0) {
        Some(i) => acc.update(i, (key, v)),
        None => acc.push((key, v)),
    }
}

/// `acc` with every entry of `src` put in turn.
pub open spec fn put_entries(acc: Seq<(Seq<char>, ValueModel)>, src: Seq<(Seq<char>, ValueModel)>) -> Seq<(Seq<char>, ValueModel)>
    decreases src.len(),
{
    if src.len() == 0 {
        acc
    } else {
        put_entries(put_entry(acc, src[0].0, src[0].1), src.drop_first())
    }
}

/// `s` with `x` inserted before the first element it does not exceed.
pub open spec fn insert_sorted(s: Seq<i64>, x: i64) -> Seq<i64>
    decreases s.len(),
{
    if s.len() == 0 {
        seq![x]
    } else if x <= s[0] {
        seq![x] + s
    } else {
        seq![s[0]] + insert_sorted(s.drop_first(), x)
    }
}

/// `s` in ascending order.
pub open spec fn sort_ints(s: Seq<i64>) -> Seq<i64>
    decreases s.len(),
{
    if s.len() == 0 {
        s
    } else {
        insert_sorted(sort_ints(s.drop_last()), s.last())
    }
}

/// The integers of a list, when every item is an `Int`.
pub open spec fn int_items(items: Seq<ValueModel>) -> Option<Seq<i64>>
    decreases items.len(),
{
    if items.len() == 0 {
        Some(Seq::empty())
    } else {
        match (int_items(items.drop_last()), items.last()) {
            (Some(s), ValueModel::Int(n)) => Some(s.push(n)),
            _ => None,
        }
    }
}

/// Integers as values.
pub open spec fn int_values(s: Seq<i64>) -> Seq<ValueModel> {
    Seq::new(s.len(), |i: int| ValueModel::Int(s[i]))
}

/// A sorted list of integers, descending when `desc`.
pub open spec fn sorted_values(s: Seq<i64>, desc: bool) -> Seq<ValueModel> {
    if desc {
        int_values(sort_ints(s).reverse())
    } else {
        int_values(sort_ints(s))
    }
}

/// The sum of `s`, added from the front, or `None` once a partial sum leaves
/// the `Int` range.
pub open spec fn checked_sum(s: Seq<i64>) -> Option<int>
    decreases s.len(),
{
    if s.len() == 0 {
        Some(0)
    } else {
        match checked_sum(s.drop_last()) {
            Some(a) => if i64::MIN <= a + s.last() <= i64::MAX { Some(a + s.last()) } else { None },
            None => None,
        }
    }
}

/// Whether text `a` comes before text `b`: compared character by character
/// by code point, a proper prefix first.
pub open spec fn text_lt(a: Seq<char>, b: Seq<char>) -> bool
    decreases a.len(),
{
    if a.len() == 0 {
        b.len() > 0
    } else if b.len() == 0 {
        false
    } else if a[0] != b[0] {
        a[0] < b[0]
    } else {
        text_lt(a.drop_first(), b.drop_first())
    }
}

/// `s` with `x` inserted before the first text it does not come after.
pub open spec fn insert_text_sorted(s: Seq<Seq<char>>, x: Seq<char>) -> Seq<Seq<char>>
    decreases s.len(),
{
    if s.len() == 0 {
        seq![x]
    } else if !text_lt(s[0], x) {
        seq![x] + s
    } else {
        seq![s[0]] + insert_text_sorted(s.drop_first(), x)
    }
}

/// Texts in ascending order.
pub open spec fn sort_texts(s: Seq<Seq<char>>) -> Seq<Seq<char>>
    decreases s.len(),
{
    if s.len() == 0 {
        s
    } else {
        insert_text_sorted(sort_texts(s.drop_last()), s.last())
    }
}

/// The texts of a list, when every item is a `Str`.
pub open spec fn text_items(items: Seq<ValueModel>) -> Option<Seq<Seq<char>>>
    decreases items.len(),
{
    if items.len() == 0 {
        Some(Seq::empty())
    } else {
        match (text_items(items.drop_last()), items.last()) {
            (Some(s), ValueModel::Str(t)) => Some(s.push(t)),
            _ => None,
        }
    }
}

/// What `sort` makes of a list: a list of integers in numeric order, or a
/// list of texts in code-point order, reversed when `desc`; `None` for any
/// other list.
pub open spec fn sort_items(items: Seq<ValueModel>, desc: bool) -> Option<Seq<ValueModel>> {
    match int_items(items) {
        Some(s) => Some(sorted_values(s, desc)),
        None => match text_items(items) {
            Some(t) => {
                let sorted = if desc { sort_texts(t).reverse() } else { sort_texts(t) };
                Some(sorted.map_values(|x: Seq<char>| ValueModel::Str(x)))
            },
            None => None,
        },
    }
}

/// The value a finished pipeline gives.
pub open spec fn pipe_value(st: PipeState) -> ValueModel {
    match st {
        PipeState::Items(items) => ValueModel::List(items),
        PipeState::Scalar(v) => v,
    }
}

/// The function at the first index from `k` with name `name` and `kind`.
pub open spec fn function_from(p: FullProgram, name: u32, kind: LoweredFunctionKind, k: nat) -> Option<nat>
    decreases p.functions@.len() - k,
{
    if k >= p.functions@.len() {
        None
    } else if p.functions@[k as int].key.name.id == name && p.functions@[k as int].kind == kind {
        Some(k)
    } else {
        function_from(p, name, kind, k + 1)
    }
}

/// The first function with name `name` and `kind`.
pub open spec fn function_index(p: FullProgram, name: u32, kind: LoweredFunctionKind) -> Option<nat> {
    function_from(p, name, kind, 0)
}

/// The function a name calls: a pure one before a procedure.
pub open spec fn named_function(p: FullProgram, name: u32) -> Option<nat> {
    match function_index(p, name, LoweredFunctionKind::Pure) {
        Some(i) => Some(i),
        None => function_index(p, name, LoweredFunctionKind::Proc),
    }
}

/// A frame's slots: the arguments, then `Unit` up to the slot count.
pub open spec fn bind_slots(args: Seq<ValueModel>, slot_count: nat) -> Seq<ValueModel> {
    args + Seq::new((slot_count - args.len()) as nat, |i: int| ValueModel::Unit)
}

pub open spec fn arity_error(expected: nat, found: nat, span: Span) -> ErrorModel {
    err_model("arity"@, "expected "@ + decimal(expected) + " arguments, found "@ + decimal(found), Some(span))
}

/// Whether a value has the declared return type.
pub open spec fn return_matches(kind: LoweredType, v: ValueModel) -> bool {
    match kind {
        LoweredType::Any => true,
        LoweredType::Unit => v is Unit,
        LoweredType::Bool => v is Bool,
        LoweredType::Int => v is Int,
        LoweredType::Str => v is Str,
        LoweredType::List => v is List,
        LoweredType::Stream => v is Stream,
    }
}

pub open spec fn type_text(kind: LoweredType) -> Seq<char> {
    match kind {
        LoweredType::Any => "Any"@,
        LoweredType::Unit => "Unit"@,
        LoweredType::Bool => "Bool"@,
        LoweredType::Int => "Int"@,
        LoweredType::Str => "Str"@,
        LoweredType::List => "List"@,
        LoweredType::Stream => "Stream"@,
    }
}

pub open spec fn control_error(message: Seq<char>, span: Span) -> ErrorModel {
    err_model("control-flow"@, message, Some(span))
}

/// What a function gives back once its body has ended: a stream function
/// gives its yielded items unless it returns a stream itself; any other
/// function must return a value of its declared type or propagate one.
pub open spec fn function_result(kind: LoweredType, end: StmtEnd, yielded: Seq<ValueModel>, span: Span) -> Result<ValueModel, ErrorModel> {
    match end {
        StmtEnd::Break => Err(control_error("break outside loop"@, span)),
        StmtEnd::Continue => Err(control_error("continue outside loop"@, span)),
        StmtEnd::Propagate(v) => Ok(v),
        StmtEnd::Done => if kind == LoweredType::Stream {
            Ok(ValueModel::Stream { items: yielded, source: None })
        } else {
            Err(err_model("return"@, "lowered function did not return"@, Some(span)))
        },
        StmtEnd::Return(v) => if kind == LoweredType::Stream {
            if v is Stream {
                Ok(v)
            } else if v is Unit {
                Ok(ValueModel::Stream { items: yielded, source: None })
            } else {
                Err(type_error("stream producer returned "@ + spec_type_name(v), span))
            }
        } else if return_matches(kind, v) {
            Ok(v)
        } else {
            Err(type_error("expected "@ + type_text(kind) + " return value, found "@ + spec_type_name(v), span))
        },
    }
}

} // verus!

verus! {

/// Evaluating instruction `id` with depth budget `b` in machine `m`; `cs` is
/// the span of the call the frame runs for.
pub open spec fn ev_expr(p: FullProgram, b: nat, id: u32, m: Machine, cs: Span) -> Result<(Flow, Machine), ErrorModel>
    decreases b, id, 4nat, 0int,
{
    if id as int >= p.execution.instructions@.len() {
        Err(fault(cs))
    } else {
        let ins = p.execution.instructions@[id as int];
        let w = ins.words@;
        let strings = p.execution.strings@;
        match ins.tag {
            FullTag::ExprNull => if w.len() == 0 { Ok((Flow::Next(ValueModel::Null), m)) } else { Err(fault(cs)) },
            FullTag::ExprUnit => if w.len() == 0 { Ok((Flow::Next(ValueModel::Unit), m)) } else { Err(fault(cs)) },
            FullTag::ExprEmptyMap => if w.len() == 0 { Ok((Flow::Next(ValueModel::Dict(Seq::empty())), m)) } else { Err(fault(cs)) },
            FullTag::ExprBool => if w.len() == 1 && w[0] <= 1 {
                Ok((Flow::Next(ValueModel::Bool(w[0] == 1)), m))
            } else {
                Err(fault(cs))
            },
            FullTag::ExprInt => if w.len() == 2 {
                Ok((Flow::Next(ValueModel::Int(i64_of_words(w[0], w[1]) as i64)), m))
            } else {
                Err(fault(cs))
            },
            FullTag::ExprStr => if w.len() == 1 && (w[0] as int) < strings.len() {
                Ok((Flow::Next(ValueModel::Str(strings[w[0] as int]@)), m))
            } else {
                Err(fault(cs))
            },
            FullTag::ExprParam => if w.len() == 1 && (w[0] as int) < m.slots.len() {
                Ok((Flow::Next(m.slots[w[0] as int]), m))
            } else {
                Err(fault(cs))
            },
            FullTag::ExprField => if w.len() == 5 && w[0] < id && (w[1] as int) < strings.len() {
                match ev_expr(p, b, w[0], m, cs) {
                    Err(e) => Err(e),
                    Ok((Flow::Exit(v), m1)) => Ok((Flow::Exit(v), m1)),
                    Ok((Flow::Next(base), m1)) => match field_value(base, strings[w[1] as int]@, span_of(w.skip(2))) {
                        Ok(v) => Ok((Flow::Next(v), m1)),
                        Err(e) => Err(e),
                    },
                }
            } else {
                Err(fault(cs))
            },
            FullTag::ExprBinary => if w.len() == 6 && binary_op_of(w[0]) is Some && w[1] < id && w[2] < id {
                ev_binary(p, b, id, binary_op_of(w[0])->0, w[1], w[2], span_of(w.skip(3)), m, cs)
            } else {
                Err(fault(cs))
            },
            FullTag::ExprNot => if w.len() == 4 && w[0] < id {
                match ev_expr(p, b, w[0], m, cs) {
                    Err(e) => Err(e),
                    Ok((Flow::Exit(v), m1)) => Ok((Flow::Exit(v), m1)),
                    Ok((Flow::Next(ValueModel::Bool(x)), m1)) => Ok((Flow::Next(ValueModel::Bool(!x)), m1)),
                    Ok((Flow::Next(v), m1)) => Err(type_error("`!` expected Bool, found "@ + spec_type_name(v), span_of(w.skip(1)))),
                }
            } else {
                Err(fault(cs))
            },
            FullTag::ExprTry => if w.len() == 4 && w[0] < id {
                match ev_expr(p, b, w[0], m, cs) {
                    Err(e) => Err(e),
                    Ok((Flow::Exit(v), m1)) => Ok((Flow::Exit(v), m1)),
                    Ok((Flow::Next(v), m1)) => match v {
                        ValueModel::ResultOk(inner) => Ok((Flow::Next(*inner), m1)),
                        ValueModel::ResultErr(_) => Ok((Flow::Exit(v), m1)),
                        _ => Err(type_error("lowered `?` expected Result"@, cs)),
                    },
                }
            } else {
                Err(fault(cs))
            },
            FullTag::ExprList => if w.len() == 1 && list_items(p, w[0], 1) is Some {
                match ev_list(p, b, id, list_items(p, w[0], 1)->0, 0, Seq::empty(), m, cs) {
                    Err(e) => Err(e),
                    Ok((Err(v), m1)) => Ok((Flow::Exit(v), m1)),
                    Ok((Ok(vals), m1)) => Ok((Flow::Next(ValueModel::List(vals)), m1)),
                }
            } else {
                Err(fault(cs))
            },
            FullTag::ExprRecord => if w.len() == 1 && list_items(p, w[0], 3) is Some {
                match ev_record(p, b, id, list_items(p, w[0], 3)->0, 0, Seq::empty(), m, cs) {
                    Err(e) => Err(e),
                    Ok((Err(v), m1)) => Ok((Flow::Exit(v), m1)),
                    Ok((Ok(entries), m1)) => Ok((Flow::Next(ValueModel::Record(entries)), m1)),
                }
            } else {
                Err(fault(cs))
            },
            FullTag::ExprCall => if w.len() == 5 && (w[0] as int) < strings.len() && list_items(p, w[1], 2) is Some {
                let span = span_of(w.skip(2));
                match ev_args(p, b, id, list_items(p, w[1], 2)->0, 0, Seq::empty(), m, cs) {
                    Err(e) => Err(e),
                    Ok((Err(v), m1)) => Ok((Flow::Exit(v), m1)),
                    Ok((Ok(args), m1)) => match named_call(p, b, w[0], args, span) {
                        Err(e) => Err(e),
                        Ok(v) => Ok((Flow::Next(v), m1)),
                    },
                }
            } else {
                Err(fault(cs))
            },
            FullTag::ExprPipeline => if w.len() == 5 && w[0] < id && list_items(p, w[1], 1) is Some {
                let span = span_of(w.skip(2));
                match ev_expr(p, b, w[0], m, cs) {
                    Err(e) => Err(e),
                    Ok((Flow::Exit(v), m1)) => Ok((Flow::Exit(v), m1)),
                    Ok((Flow::Next(ValueModel::List(items)), m1)) =>
                        match ev_stages(p, b, id, list_items(p, w[1], 1)->0, 0, PipeState::Items(items), m1, cs, span) {
                            Err(e) => Err(e),
                            Ok((Err(v), m2)) => Ok((Flow::Exit(v), m2)),
                            Ok((Ok(st), m2)) => Ok((Flow::Next(pipe_value(st)), m2)),
                        },
                    Ok((Flow::Next(v), m1)) => Err(type_error("pipeline expected List, found "@ + spec_type_name(v), span)),
                }
            } else {
                Err(fault(cs))
            },
            FullTag::ExprOk => if w.len() == 1 && w[0] < id {
                match ev_expr(p, b, w[0], m, cs) {
                    Err(e) => Err(e),
                    Ok((Flow::Exit(v), m1)) => Ok((Flow::Exit(v), m1)),
                    Ok((Flow::Next(v), m1)) => Ok((Flow::Next(ValueModel::ResultOk(Box::new(v))), m1)),
                }
            } else {
                Err(fault(cs))
            },
            FullTag::ExprErr => if w.len() == 1 && w[0] < id {
                match ev_expr(p, b, w[0], m, cs) {
                    Err(e) => Err(e),
                    Ok((Flow::Exit(v), m1)) => Ok((Flow::Exit(v), m1)),
                    Ok((Flow::Next(v), m1)) => Ok((Flow::Next(ValueModel::ResultErr(Box::new(v))), m1)),
                }
            } else {
                Err(fault(cs))
            },
            FullTag::ExprResultFallback => if w.len() == 2 && w[0] < id && w[1] < id {
                match ev_expr(p, b, w[0], m, cs) {
                    Err(e) => Err(e),
                    Ok((Flow::Exit(v), m1)) => Ok((Flow::Exit(v), m1)),
                    Ok((Flow::Next(v), m1)) => match v {
                        ValueModel::ResultOk(inner) => Ok((Flow::Next(*inner), m1)),
                        ValueModel::ResultErr(_) => ev_expr(p, b, w[1], m1, cs),
                        ValueModel::Null => ev_expr(p, b, w[1], m1, cs),
                        _ => Ok((Flow::Next(v), m1)),
                    },
                }
            } else {
                Err(fault(cs))
            },
            FullTag::ExprIf => if w.len() == 5 && w[1] < id && list_items(p, w[0], 2) is Some {
                ev_if(p, b, id, list_items(p, w[0], 2)->0, 0, w[1], span_of(w.skip(2)), m, cs)
            } else {
                Err(fault(cs))
            },
            FullTag::ExprTag => if w.len() == 2 && (w[0] as int) < p.execution.strings@.len() && list_items(p, w[1], 1) is Some {
                match ev_list(p, b, id, list_items(p, w[1], 1)->0, 0, Seq::empty(), m, cs) {
                    Err(e) => Err(e),
                    Ok((Err(v), m1)) => Ok((Flow::Exit(v), m1)),
                    Ok((Ok(vals), m1)) =>
                        Ok((Flow::Next(ValueModel::Tag { name: p.execution.strings@[w[0] as int]@, fields: vals }), m1)),
                }
            } else {
                Err(fault(cs))
            },
            FullTag::ExprRange => if w.len() == 5 && w[0] < id && w[1] < id {
                let span = span_of(w.skip(2));
                match ev_expr(p, b, w[0], m, cs) {
                    Err(e) => Err(e),
                    Ok((Flow::Exit(x), m1)) => Ok((Flow::Exit(x), m1)),
                    Ok((Flow::Next(ValueModel::Int(a)), m1)) => match ev_expr(p, b, w[1], m1, cs) {
                        Err(e) => Err(e),
                        Ok((Flow::Exit(x), m2)) => Ok((Flow::Exit(x), m2)),
                        Ok((Flow::Next(ValueModel::Int(c)), m2)) => Ok((Flow::Next(ValueModel::List(range_values(a, c))), m2)),
                        Ok((Flow::Next(y), m2)) => Err(range_end_error(y, span)),
                    },
                    Ok((Flow::Next(x), m1)) => Err(range_start_error(x, span)),
                }
            } else {
                Err(fault(cs))
            },
            _ => Err(fault(cs)),
        }
    }
}

/// The integers a range from `a` to `c` gives: counting up from `a` to just
/// below `c` when `a <= c`, else counting down from `a` to just above `c`.
pub open spec fn range_values(a: i64, c: i64) -> Seq<ValueModel> {
    if a <= c {
        Seq::new((c - a) as nat, |i: int| ValueModel::Int((a + i) as i64))
    } else {
        Seq::new((a - c) as nat, |i: int| ValueModel::Int((a - i) as i64))
    }
}

/// The error for a range whose start is no integer.
pub open spec fn range_start_error(v: ValueModel, span: Span) -> ErrorModel {
    type_error("range start expected Int, found "@ + spec_type_name(v), span)
}

/// The error for a range whose end is no integer.
pub open spec fn range_end_error(v: ValueModel, span: Span) -> ErrorModel {
    type_error("range end expected Int, found "@ + spec_type_name(v), span)
}

/// An `if` expression from branch `k` of the (condition, value) pairs in
/// `w`: the first branch whose condition holds gives the value; when none
/// does, the `else` value.
pub open spec fn ev_if(
    p: FullProgram, b: nat, id: u32, w: Seq<u32>, k: nat, else_value: u32, span: Span, m: Machine, cs: Span,
) -> Result<(Flow, Machine), ErrorModel>
    decreases b, id, 3nat, w.len() - 2 * k,
{
    if 2 * k + 2 > w.len() {
        if else_value < id { ev_expr(p, b, else_value, m, cs) } else { Err(fault(cs)) }
    } else if w[2 * (k as int)] >= id || w[2 * (k as int) + 1] >= id {
        Err(fault(cs))
    } else {
        match ev_expr(p, b, w[2 * (k as int)], m, cs) {
            Err(e) => Err(e),
            Ok((Flow::Exit(v), m1)) => Ok((Flow::Exit(v), m1)),
            Ok((Flow::Next(c), m1)) => match condition_of(c) {
                None => Err(expected_bool(span)),
                Some(true) => ev_expr(p, b, w[2 * (k as int) + 1], m1, cs),
                Some(false) => ev_if(p, b, id, w, k + 1, else_value, span, m1, cs),
            },
        }
    }
}

/// A binary expression: `&&` and `||` evaluate their right operand only when
/// the left one does not decide; the other operators evaluate both, left
/// first.
pub open spec fn ev_binary(
    p: FullProgram, b: nat, id: u32, op: BinaryOp, l: u32, r: u32, span: Span, m: Machine, cs: Span,
) -> Result<(Flow, Machine), ErrorModel>
    decreases b, id, 3nat, 0int,
{
    if l >= id || r >= id {
        Err(fault(cs))
    } else {
        match ev_expr(p, b, l, m, cs) {
            Err(e) => Err(e),
            Ok((Flow::Exit(v), m1)) => Ok((Flow::Exit(v), m1)),
            Ok((Flow::Next(lv), m1)) => if op == BinaryOp::And || op == BinaryOp::Or {
                match lv {
                    ValueModel::Bool(x) => if (op == BinaryOp::And && !x) || (op == BinaryOp::Or && x) {
                        Ok((Flow::Next(ValueModel::Bool(x)), m1))
                    } else {
                        match ev_expr(p, b, r, m1, cs) {
                            Err(e) => Err(e),
                            Ok((Flow::Exit(v), m2)) => Ok((Flow::Exit(v), m2)),
                            Ok((Flow::Next(ValueModel::Bool(y)), m2)) => Ok((Flow::Next(ValueModel::Bool(y)), m2)),
                            Ok((Flow::Next(rv), m2)) => Err(type_error("`"@ + op_text(op) + "` expected Bool, found "@ + spec_type_name(rv), span)),
                        }
                    },
                    _ => Err(type_error("`"@ + op_text(op) + "` expected Bool, found "@ + spec_type_name(lv), span)),
                }
            } else {
                match ev_expr(p, b, r, m1, cs) {
                    Err(e) => Err(e),
                    Ok((Flow::Exit(v), m2)) => Ok((Flow::Exit(v), m2)),
                    Ok((Flow::Next(rv), m2)) => match binary_value(op, lv, rv, span) {
                        Ok(v) => Ok((Flow::Next(v), m2)),
                        Err(e) => Err(e),
                    },
                }
            },
        }
    }
}

/// The values of list elements `ids[k..]`, after `acc`; `Err` carries a
/// value propagated out of an element.
pub open spec fn ev_list(
    p: FullProgram, b: nat, id: u32, ids: Seq<u32>, k: nat, acc: Seq<ValueModel>, m: Machine, cs: Span,
) -> Result<(Result<Seq<ValueModel>, ValueModel>, Machine), ErrorModel>
    decreases b, id, 3nat, ids.len() - k,
{
    if k >= ids.len() {
        Ok((Ok(acc), m))
    } else if ids[k as int] >= id {
        Err(fault(cs))
    } else {
        match ev_expr(p, b, ids[k as int], m, cs) {
            Err(e) => Err(e),
            Ok((Flow::Exit(v), m1)) => Ok((Err(v), m1)),
            Ok((Flow::Next(v), m1)) => ev_list(p, b, id, ids, k + 1, acc.push(v), m1, cs),
        }
    }
}

/// The values of call arguments `k..` of the (mode, instruction) pairs in
/// `w`, after `acc`; only plain arguments (mode 0) are well formed.
pub open spec fn ev_args(
    p: FullProgram, b: nat, id: u32, w: Seq<u32>, k: nat, acc: Seq<ValueModel>, m: Machine, cs: Span,
) -> Result<(Result<Seq<ValueModel>, ValueModel>, Machine), ErrorModel>
    decreases b, id, 3nat, w.len() - 2 * k,
{
    if 2 * k + 2 > w.len() {
        Ok((Ok(acc), m))
    } else if w[2 * (k as int)] != 0 || w[2 * (k as int) + 1] >= id {
        Err(fault(cs))
    } else {
        match ev_expr(p, b, w[2 * (k as int) + 1], m, cs) {
            Err(e) => Err(e),
            Ok((Flow::Exit(v), m1)) => Ok((Err(v), m1)),
            Ok((Flow::Next(v), m1)) => ev_args(p, b, id, w, k + 1, acc.push(v), m1, cs),
        }
    }
}

/// The entries of a record literal from entry `k` of the (spread, name,
/// instruction) triples in `w`, put after `acc`: a field sets its name, a
/// spread puts every entry of a record.
pub open spec fn ev_record(
    p: FullProgram, b: nat, id: u32, w: Seq<u32>, k: nat, acc: Seq<(Seq<char>, ValueModel)>, m: Machine, cs: Span,
) -> Result<(Result<Seq<(Seq<char>, ValueModel)>, ValueModel>, Machine), ErrorModel>
    decreases b, id, 3nat, w.len() - 3 * k,
{
    if 3 * k + 3 > w.len() {
        Ok((Ok(acc), m))
    } else if w[3 * (k as int) + 2] >= id || w[3 * (k as int)] > 1 || (w[3 * (k as int)] == 0 && w[3 * (k as int) + 1] as int >= p.execution.strings@.len()) {
        Err(fault(cs))
    } else {
        match ev_expr(p, b, w[3 * (k as int) + 2], m, cs) {
            Err(e) => Err(e),
            Ok((Flow::Exit(v), m1)) => Ok((Err(v), m1)),
            Ok((Flow::Next(v), m1)) => if w[3 * (k as int)] == 0 {
                ev_record(p, b, id, w, k + 1, put_entry(acc, p.execution.strings@[w[3 * (k as int) + 1] as int]@, v), m1, cs)
            } else {
                match v {
                    ValueModel::Record(src) => ev_record(p, b, id, w, k + 1, put_entries(acc, src), m1, cs),
                    ValueModel::Module(src) => ev_record(p, b, id, w, k + 1, put_entries(acc, src), m1, cs),
                    _ => Err(type_error("record spread expected Record, found "@ + spec_type_name(v), cs)),
                }
            },
        }
    }
}

/// Keeping the items from `k` on for which `pred`, with the item in `slot`,
/// is true.
pub open spec fn ev_filter(
    p: FullProgram, b: nat, id: u32, slot: nat, pred: u32, items: Seq<ValueModel>, k: nat, acc: Seq<ValueModel>,
    m: Machine, cs: Span, span: Span,
) -> Result<(Result<Seq<ValueModel>, ValueModel>, Machine), ErrorModel>
    decreases b, id, 2nat, items.len() - k,
{
    if k >= items.len() {
        Ok((Ok(acc), m))
    } else if pred >= id || slot >= m.slots.len() {
        Err(fault(cs))
    } else {
        match ev_expr(p, b, pred, set_slot(m, slot as int, items[k as int]), cs) {
            Err(e) => Err(e),
            Ok((Flow::Exit(v), m1)) => Ok((Err(v), m1)),
            Ok((Flow::Next(ValueModel::Bool(x)), m1)) =>
                ev_filter(p, b, id, slot, pred, items, k + 1, if x { acc.push(items[k as int]) } else { acc }, m1, cs, span),
            Ok((Flow::Next(v), m1)) => Err(type_error("where expected Bool, found "@ + spec_type_name(v), span)),
        }
    }
}

/// Mapping the items from `k` on through `value`, with the item in `slot`;
/// when `flat`, each result must be a list and its items are spliced in.
pub open spec fn ev_map(
    p: FullProgram, b: nat, id: u32, slot: nat, value: u32, flat: bool, items: Seq<ValueModel>, k: nat,
    acc: Seq<ValueModel>, m: Machine, cs: Span, span: Span,
) -> Result<(Result<Seq<ValueModel>, ValueModel>, Machine), ErrorModel>
    decreases b, id, 2nat, items.len() - k,
{
    if k >= items.len() {
        Ok((Ok(acc), m))
    } else if value >= id || slot >= m.slots.len() {
        Err(fault(cs))
    } else {
        match ev_expr(p, b, value, set_slot(m, slot as int, items[k as int]), cs) {
            Err(e) => Err(e),
            Ok((Flow::Exit(v), m1)) => Ok((Err(v), m1)),
            Ok((Flow::Next(v), m1)) => if !flat {
                ev_map(p, b, id, slot, value, flat, items, k + 1, acc.push(v), m1, cs, span)
            } else {
                match v {
                    ValueModel::List(vs) => ev_map(p, b, id, slot, value, flat, items, k + 1, acc + vs, m1, cs, span),
                    _ => Err(type_error("flat-map expected List, found "@ + spec_type_name(v), span)),
                }
            },
        }
    }
}

/// Whether any (or, when `all`, every) item from `k` on satisfies `pred`,
/// stopping at the first item that decides.
pub open spec fn ev_any(
    p: FullProgram, b: nat, id: u32, slot: nat, pred: u32, all: bool, items: Seq<ValueModel>, k: nat,
    m: Machine, cs: Span, span: Span,
) -> Result<(Result<bool, ValueModel>, Machine), ErrorModel>
    decreases b, id, 2nat, items.len() - k,
{
    if k >= items.len() {
        Ok((Ok(all), m))
    } else if pred >= id || slot >= m.slots.len() {
        Err(fault(cs))
    } else {
        match ev_expr(p, b, pred, set_slot(m, slot as int, items[k as int]), cs) {
            Err(e) => Err(e),
            Ok((Flow::Exit(v), m1)) => Ok((Err(v), m1)),
            Ok((Flow::Next(ValueModel::Bool(x)), m1)) => if x != all {
                Ok((Ok(x), m1))
            } else {
                ev_any(p, b, id, slot, pred, all, items, k + 1, m1, cs, span)
            },
            Ok((Flow::Next(v), m1)) => Err(type_error(
                (if all { "all"@ } else { "any"@ }) + " expected Bool, found "@ + spec_type_name(v), span)),
        }
    }
}

/// Running one stage `stage_id` over `items`.
pub open spec fn stage_step(
    p: FullProgram, b: nat, id: u32, stage_id: u32, items: Seq<ValueModel>, m: Machine, cs: Span, span: Span,
) -> Result<(Result<PipeState, ValueModel>, Machine), ErrorModel>
    decreases b, id, 3nat, 0int,
{
    if stage_id as int >= p.execution.stages@.len() {
        Err(fault(cs))
    } else {
        let stage = p.execution.stages@[stage_id as int];
        let sw = stage.words@;
        let tag = stage.tag;
        match tag {
            FullStageTag::Where => if sw.len() == 2 {
                match ev_filter(p, b, id, sw[0] as nat, sw[1], items, 0, Seq::empty(), m, cs, span) {
                    Err(e) => Err(e),
                    Ok((Err(v), m1)) => Ok((Err(v), m1)),
                    Ok((Ok(kept), m1)) => Ok((Ok(PipeState::Items(kept)), m1)),
                }
            } else {
                Err(fault(cs))
            },
            FullStageTag::MapItems | FullStageTag::FlatMap => if sw.len() == 2 {
                match ev_map(p, b, id, sw[0] as nat, sw[1], tag == FullStageTag::FlatMap, items, 0, Seq::empty(), m, cs, span) {
                    Err(e) => Err(e),
                    Ok((Err(v), m1)) => Ok((Err(v), m1)),
                    Ok((Ok(out), m1)) => Ok((Ok(PipeState::Items(out)), m1)),
                }
            } else {
                Err(fault(cs))
            },
            FullStageTag::Any | FullStageTag::All => if sw.len() == 2 {
                match ev_any(p, b, id, sw[0] as nat, sw[1], tag == FullStageTag::All, items, 0, m, cs, span) {
                    Err(e) => Err(e),
                    Ok((Err(v), m1)) => Ok((Err(v), m1)),
                    Ok((Ok(x), m1)) => Ok((Ok(PipeState::Scalar(ValueModel::Bool(x))), m1)),
                }
            } else {
                Err(fault(cs))
            },
            FullStageTag::Take | FullStageTag::Drop => if sw.len() == 1 && sw[0] < id {
                match ev_expr(p, b, sw[0], m, cs) {
                    Err(e) => Err(e),
                    Ok((Flow::Exit(v), m1)) => Ok((Err(v), m1)),
                    Ok((Flow::Next(ValueModel::Int(n)), m1)) => if n >= 0 {
                        let c: int = if n as int <= items.len() { n as int } else { items.len() as int };
                        Ok((Ok(PipeState::Items(if tag == FullStageTag::Take { items.take(c) } else { items.skip(c) })), m1))
                    } else {
                        Err(type_error("`"@ + spec_stage_name(tag) + "` expected a non-negative Int"@, span))
                    },
                    Ok((Flow::Next(v), m1)) => Err(type_error("`"@ + spec_stage_name(tag) + "` expected a non-negative Int"@, span)),
                }
            } else {
                Err(fault(cs))
            },
            FullStageTag::Sort => if sw.len() == 1 && sw[0] == 0 {
                match sort_items(items, false) {
                    Some(out) => Ok((Ok(PipeState::Items(out)), m)),
                    None => Err(type_error("sort expected Int or Str items"@, span)),
                }
            } else if sw.len() == 2 && sw[0] == 1 && sw[1] < id {
                match ev_expr(p, b, sw[1], m, cs) {
                    Err(e) => Err(e),
                    Ok((Flow::Exit(v), m1)) => Ok((Err(v), m1)),
                    Ok((Flow::Next(ValueModel::Bool(desc)), m1)) => match sort_items(items, desc) {
                        Some(out) => Ok((Ok(PipeState::Items(out)), m1)),
                        None => Err(type_error("sort expected Int or Str items"@, span)),
                    },
                    Ok((Flow::Next(v), m1)) => Err(type_error("--desc expected Bool, found "@ + spec_type_name(v), span)),
                }
            } else {
                Err(fault(cs))
            },
            FullStageTag::Count => if sw.len() == 0 {
                Ok((Ok(PipeState::Scalar(ValueModel::Int(items.len() as i64))), m))
            } else {
                Err(fault(cs))
            },
            FullStageTag::First | FullStageTag::Last => if sw.len() == 0 {
                Ok((Ok(PipeState::Scalar(if items.len() == 0 {
                    crate::pipeline::empty_stream_value()
                } else if tag == FullStageTag::First {
                    ValueModel::ResultOk(Box::new(items[0]))
                } else {
                    ValueModel::ResultOk(Box::new(items.last()))
                })), m))
            } else {
                Err(fault(cs))
            },
            FullStageTag::Sum => if sw.len() == 0 {
                match int_items(items) {
                    None => Err(type_error("sum expected Int stream"@, span)),
                    Some(s) => match checked_sum(s) {
                        Some(n) => Ok((Ok(PipeState::Scalar(ValueModel::Int(n as i64))), m)),
                        None => Err(overflow_error(span)),
                    },
                }
            } else {
                Err(fault(cs))
            },
            FullStageTag::Min | FullStageTag::Max => if sw.len() == 0 {
                match sort_items(items, false) {
                    None => Err(type_error("`"@ + spec_stage_name(tag) + "` expected Int or Str items"@, span)),
                    Some(out) => Ok((Ok(PipeState::Scalar(if out.len() == 0 {
                        crate::pipeline::empty_stream_value()
                    } else if tag == FullStageTag::Min {
                        ValueModel::ResultOk(Box::new(out[0]))
                    } else {
                        ValueModel::ResultOk(Box::new(out.last()))
                    })), m)),
                }
            } else {
                Err(fault(cs))
            },
            FullStageTag::Collect => if sw.len() == 0 {
                Ok((Ok(PipeState::Items(items)), m))
            } else {
                Err(fault(cs))
            },
            _ => Err(err_model("unsupported-stage"@, "stage `"@ + spec_stage_name(tag) + "` cannot run in a direct pipeline"@, Some(span))),
        }
    }
}

/// Running pipeline stages `sids[k..]` over `st`: every stage but one that
/// ends the pipeline with a single value needs a sequence.
pub open spec fn ev_stages(
    p: FullProgram, b: nat, id: u32, sids: Seq<u32>, k: nat, st: PipeState, m: Machine, cs: Span, span: Span,
) -> Result<(Result<PipeState, ValueModel>, Machine), ErrorModel>
    decreases b, id, 3nat, sids.len() - k,
{
    if k >= sids.len() {
        Ok((Ok(st), m))
    } else if sids[k as int] as int >= p.execution.stages@.len() {
        Err(fault(cs))
    } else {
        match st {
            PipeState::Scalar(_) => Err(type_error(
                "stage `"@ + spec_stage_name(p.execution.stages@[sids[k as int] as int].tag) + "` expected a sequence"@, span)),
            PipeState::Items(items) => match stage_step(p, b, id, sids[k as int], items, m, cs, span) {
                Err(e) => Err(e),
                Ok((Err(v), m1)) => Ok((Err(v), m1)),
                Ok((Ok(next), m1)) => ev_stages(p, b, id, sids, k + 1, next, m1, cs, span),
            },
        }
    }
}

/// Running deferred expressions `defers[..j]`, last first; a deferred
/// expression may not propagate.
pub open spec fn ev_defers(p: FullProgram, b: nat, bound: nat, defers: Seq<u32>, j: nat, m: Machine, cs: Span) -> Result<Machine, ErrorModel>
    decreases b, bound, 0nat, j,
{
    if j == 0 || j > defers.len() {
        Ok(m)
    } else if defers[j - 1] as nat >= bound {
        Err(fault(cs))
    } else {
        match ev_expr(p, b, defers[j - 1], m, cs) {
            Err(e) => Err(e),
            Ok((Flow::Exit(_), _)) => Err(err_model("defer-control-flow"@, "deferred expression produced invalid control flow"@, Some(cs))),
            Ok((Flow::Next(_), m1)) => ev_defers(p, b, bound, defers, (j - 1) as nat, m1, cs),
        }
    }
}

/// Running statements `ss[k..]`, each with an index below `bound`, having
/// registered `defers`, in a frame that may yield when `y` (a stream
/// function's body): a defer statement registers its expression; the first
/// statement that does not simply finish ends the list, and the deferred
/// expressions then run, last first. When a statement fails, the deferred
/// expressions run too, their own outcome set aside, and the list fails
/// with the statement's error; nothing of that run reaches the result,
/// which is the error alone.
pub open spec fn ev_stmts(
    p: FullProgram, b: nat, bound: nat, ss: Seq<u32>, k: nat, defers: Seq<u32>, m: Machine, cs: Span, y: bool,
) -> Result<(StmtEnd, Machine), ErrorModel>
    decreases b, bound, 1nat, ss.len() - k,
{
    if k >= ss.len() {
        match ev_defers(p, b, bound, defers, defers.len(), m, cs) {
            Err(e) => Err(e),
            Ok(m1) => Ok((StmtEnd::Done, m1)),
        }
    } else {
        let s = ss[k as int];
        if s as nat >= bound || s as int >= p.execution.instructions@.len() {
            Err(fault(cs))
        } else {
            let ins = p.execution.instructions@[s as int];
            if ins.tag == FullTag::StmtDefer {
                if ins.words@.len() == 1 && ins.words@[0] < s {
                    ev_stmts(p, b, bound, ss, k + 1, defers.push(ins.words@[0]), m, cs, y)
                } else {
                    Err(fault(cs))
                }
            } else {
                match ev_stmt(p, b, s, m, cs, y) {
                    Err(e) => Err(e),
                    Ok((StmtEnd::Done, m1)) => ev_stmts(p, b, bound, ss, k + 1, defers, m1, cs, y),
                    Ok((end, m1)) => match ev_defers(p, b, bound, defers, defers.len(), m1, cs) {
                        Err(e) => Err(e),
                        Ok(m2) => Ok((end, m2)),
                    },
                }
            }
        }
    }
}

/// A `for` loop from item `k` on: each item goes into `slot` and the body
/// `ss` runs; `break` ends the loop, `continue` goes on, a return or a
/// propagation leaves it.
pub open spec fn ev_for(
    p: FullProgram, b: nat, s: u32, slot: nat, ss: Seq<u32>, items: Seq<ValueModel>, k: nat, m: Machine, cs: Span, y: bool,
) -> Result<(StmtEnd, Machine), ErrorModel>
    decreases b, s, 2nat, items.len() - k,
{
    if k >= items.len() {
        Ok((StmtEnd::Done, m))
    } else if slot >= m.slots.len() {
        Err(fault(cs))
    } else {
        match ev_stmts(p, b, s as nat, ss, 0, Seq::empty(), set_slot(m, slot as int, items[k as int]), cs, y) {
            Err(e) => Err(e),
            Ok((StmtEnd::Done, m1)) => ev_for(p, b, s, slot, ss, items, k + 1, m1, cs, y),
            Ok((StmtEnd::Continue, m1)) => ev_for(p, b, s, slot, ss, items, k + 1, m1, cs, y),
            Ok((StmtEnd::Break, m1)) => Ok((StmtEnd::Done, m1)),
            Ok((end, m1)) => Ok((end, m1)),
        }
    }
}

/// How many rounds a `while` or `loop` statement may run before it stops
/// with an error.
pub const MAX_LOOP_ROUNDS: u64 = 0xffff_ffff_ffff_ffff;

/// The error for a loop that used up its rounds.
pub open spec fn loop_limit_error(cs: Span) -> ErrorModel {
    err_model("step-limit"@, "loop ran out of rounds"@, Some(cs))
}

/// A `while` loop of statement `s` (a `loop` when `cond` is `None`) with
/// body `ss` and `fuel` rounds left: each round tests the condition (a
/// boolean, or a status's success), then runs the body; `break` ends the
/// loop, `return` and a propagation end it with that flow.
pub open spec fn ev_while(
    p: FullProgram, b: nat, s: u32, cond: Option<u32>, ss: Seq<u32>, fuel: nat, m: Machine, cs: Span, y: bool,
) -> Result<(StmtEnd, Machine), ErrorModel>
    decreases b, s, 2nat, fuel,
{
    if fuel == 0 {
        Err(loop_limit_error(cs))
    } else {
        let tested: Result<(Option<ValueModel>, bool, Machine), ErrorModel> = match cond {
            None => Ok((None, true, m)),
            Some(c) => if c >= s {
                Err(fault(cs))
            } else {
                match ev_expr(p, b, c, m, cs) {
                    Err(e) => Err(e),
                    Ok((Flow::Exit(v), m1)) => Ok((Some(v), false, m1)),
                    Ok((Flow::Next(v), m1)) => match condition_of(v) {
                        None => Err(expected_bool(cs)),
                        Some(x) => Ok((None, x, m1)),
                    },
                }
            },
        };
        match tested {
            Err(e) => Err(e),
            Ok((Some(v), _, m1)) => Ok((StmtEnd::Propagate(v), m1)),
            Ok((None, false, m1)) => Ok((StmtEnd::Done, m1)),
            Ok((None, true, m1)) => match ev_stmts(p, b, s as nat, ss, 0, Seq::empty(), m1, cs, y) {
                Err(e) => Err(e),
                Ok((StmtEnd::Done, m2)) => ev_while(p, b, s, cond, ss, (fuel - 1) as nat, m2, cs, y),
                Ok((StmtEnd::Continue, m2)) => ev_while(p, b, s, cond, ss, (fuel - 1) as nat, m2, cs, y),
                Ok((StmtEnd::Break, m2)) => Ok((StmtEnd::Done, m2)),
                Ok((end, m2)) => Ok((end, m2)),
            },
        }
    }
}

/// The error for a `match` none of whose arms takes the value.
pub open spec fn no_arm_error(span: Span) -> ErrorModel {
    err_model("match"@, "no match arm matched"@, Some(span))
}

/// The arms `aw[3 * k..]` of `match` statement `s`, each a (pattern, guard,
/// body) triple, the guard given as its instruction plus one or 0 for none,
/// tried in order on `v`: the first arm whose pattern matches and whose
/// guard holds runs its body. A pattern's bindings stay in the slots even
/// when its guard fails.
pub open spec fn ev_arms(
    p: FullProgram, b: nat, s: u32, aw: Seq<u32>, k: nat, v: ValueModel, m: Machine, cs: Span, span: Span, y: bool,
) -> Result<(StmtEnd, Machine), ErrorModel>
    decreases b, s, 2nat, aw.len() - 3 * k,
{
    if 3 * k + 3 > aw.len() {
        Err(no_arm_error(span))
    } else {
        let pat = aw[3 * k as int];
        let g1 = aw[(3 * k + 1) as int];
        let body = aw[(3 * k + 2) as int];
        if (g1 > 0 && g1 - 1 >= s) || statement_block_of(&p.execution, body) is None {
            Err(fault(cs))
        } else {
            let ss = statement_block_of(&p.execution, body)->0;
            match crate::patterns::pattern_match(p, pat, v, m.slots, span) {
                Err(e) => Err(e),
                Ok((false, sl)) => ev_arms(p, b, s, aw, k + 1, v, Machine { slots: sl, yielded: m.yielded }, cs, span, y),
                Ok((true, sl)) => {
                    let m1 = Machine { slots: sl, yielded: m.yielded };
                    if g1 == 0 {
                        ev_stmts(p, b, s as nat, ss, 0, Seq::empty(), m1, cs, y)
                    } else {
                        match ev_expr(p, b, (g1 - 1) as u32, m1, cs) {
                            Err(e) => Err(e),
                            Ok((Flow::Exit(x), m2)) => Ok((StmtEnd::Propagate(x), m2)),
                            Ok((Flow::Next(c), m2)) => match condition_of(c) {
                                None => Err(expected_bool(cs)),
                                Some(false) => ev_arms(p, b, s, aw, k + 1, v, m2, cs, span, y),
                                Some(true) => ev_stmts(p, b, s as nat, ss, 0, Seq::empty(), m2, cs, y),
                            },
                        }
                    }
                },
            }
        }
    }
}

/// Running statement `s`.
pub open spec fn ev_stmt(p: FullProgram, b: nat, s: u32, m: Machine, cs: Span, y: bool) -> Result<(StmtEnd, Machine), ErrorModel>
    decreases b, s, 3nat, 0int,
{
    if s as int >= p.execution.instructions@.len() {
        Err(fault(cs))
    } else {
        let ins = p.execution.instructions@[s as int];
        let w = ins.words@;
        match ins.tag {
            FullTag::StmtLet => if w.len() == 2 && w[1] < s {
                match ev_expr(p, b, w[1], m, cs) {
                    Err(e) => Err(e),
                    Ok((Flow::Exit(v), m1)) => Ok((StmtEnd::Propagate(v), m1)),
                    Ok((Flow::Next(v), m1)) => if (w[0] as int) < m1.slots.len() {
                        Ok((StmtEnd::Done, set_slot(m1, w[0] as int, v)))
                    } else {
                        Err(fault(cs))
                    },
                }
            } else {
                Err(fault(cs))
            },
            FullTag::StmtExpr => if w.len() == 1 && w[0] < s {
                match ev_expr(p, b, w[0], m, cs) {
                    Err(e) => Err(e),
                    Ok((Flow::Exit(v), m1)) => Ok((StmtEnd::Propagate(v), m1)),
                    Ok((Flow::Next(_), m1)) => Ok((StmtEnd::Done, m1)),
                }
            } else {
                Err(fault(cs))
            },
            FullTag::StmtReturn => if w.len() == 1 && w[0] < s {
                match ev_expr(p, b, w[0], m, cs) {
                    Err(e) => Err(e),
                    Ok((Flow::Exit(v), m1)) => Ok((StmtEnd::Return(v), m1)),
                    Ok((Flow::Next(v), m1)) => Ok((StmtEnd::Return(v), m1)),
                }
            } else {
                Err(fault(cs))
            },
            FullTag::StmtYield => if w.len() == 1 && w[0] < s {
                if !y {
                    Err(yield_error(cs))
                } else {
                    match ev_expr(p, b, w[0], m, cs) {
                        Err(e) => Err(e),
                        Ok((Flow::Exit(v), m1)) => Ok((StmtEnd::Done, Machine { slots: m1.slots, yielded: m1.yielded.push(v) })),
                        Ok((Flow::Next(v), m1)) => Ok((StmtEnd::Done, Machine { slots: m1.slots, yielded: m1.yielded.push(v) })),
                    }
                }
            } else {
                Err(fault(cs))
            },
            FullTag::StmtBreak => if w.len() == 0 { Ok((StmtEnd::Break, m)) } else { Err(fault(cs)) },
            FullTag::StmtContinue => if w.len() == 0 { Ok((StmtEnd::Continue, m)) } else { Err(fault(cs)) },
            FullTag::StmtAssign => if w.len() == 6 && w[2] < s && assign_op_of(w[1]) is Some {
                match ev_expr(p, b, w[2], m, cs) {
                    Err(e) => Err(e),
                    Ok((Flow::Exit(v), m1)) => Ok((StmtEnd::Propagate(v), m1)),
                    Ok((Flow::Next(v), m1)) => if (w[0] as int) < m1.slots.len() {
                        match assign_op_of(w[1])->0 {
                            None => Ok((StmtEnd::Done, set_slot(m1, w[0] as int, v))),
                            Some(op) => match binary_value(op, m1.slots[w[0] as int], v, span_of(w.skip(3))) {
                                Err(e) => Err(e),
                                Ok(x) => Ok((StmtEnd::Done, set_slot(m1, w[0] as int, x))),
                            },
                        }
                    } else {
                        Err(fault(cs))
                    },
                }
            } else {
                Err(fault(cs))
            },
            FullTag::StmtIf => if (w.len() == 3 && w[2] == 0 || w.len() == 4 && w[2] == 1) && w[0] < s
                && statement_block_of(&p.execution, w[1]) is Some
                && (w.len() == 4 ==> statement_block_of(&p.execution, w[3]) is Some) {
                match ev_expr(p, b, w[0], m, cs) {
                    Err(e) => Err(e),
                    Ok((Flow::Exit(v), m1)) => Ok((StmtEnd::Propagate(v), m1)),
                    Ok((Flow::Next(v), m1)) => match condition_of(v) {
                        None => Err(expected_bool(cs)),
                        Some(true) => ev_stmts(p, b, s as nat, statement_block_of(&p.execution, w[1])->0, 0, Seq::empty(), m1, cs, y),
                        Some(false) => if w.len() == 4 {
                            ev_stmts(p, b, s as nat, statement_block_of(&p.execution, w[3])->0, 0, Seq::empty(), m1, cs, y)
                        } else {
                            Ok((StmtEnd::Done, m1))
                        },
                    },
                }
            } else {
                Err(fault(cs))
            },
            FullTag::StmtLetRecord => if w.len() == 5 && w[0] < s && list_items(p, w[1], 2) is Some {
                match ev_expr(p, b, w[0], m, cs) {
                    Err(e) => Err(e),
                    Ok((Flow::Exit(v), m1)) => Ok((StmtEnd::Propagate(v), m1)),
                    Ok((Flow::Next(v), m1)) => match bind_fields(p, list_items(p, w[1], 2)->0, 0, v, m1.slots, span_of(w.skip(2)), cs) {
                        Err(e) => Err(e),
                        Ok(sl) => Ok((StmtEnd::Done, Machine { slots: sl, yielded: m1.yielded })),
                    },
                }
            } else {
                Err(fault(cs))
            },
            FullTag::StmtGuard => if w.len() == 8 && w[1] < s && w[2] <= 1 && statement_block_of(&p.execution, w[4]) is Some {
                let span = span_of(w.skip(5));
                match ev_expr(p, b, w[1], m, cs) {
                    Err(e) => Err(e),
                    Ok((Flow::Exit(v), m1)) => Ok((StmtEnd::Propagate(v), m1)),
                    Ok((Flow::Next(ValueModel::ResultOk(inner)), m1)) => if (w[0] as int) < m1.slots.len() {
                        Ok((StmtEnd::Done, set_slot(m1, w[0] as int, *inner)))
                    } else {
                        Err(fault(cs))
                    },
                    Ok((Flow::Next(ValueModel::ResultErr(err)), m1)) => if w[2] == 1 && (w[3] as int) >= m1.slots.len() {
                        Err(fault(cs))
                    } else {
                        let m2 = if w[2] == 1 { set_slot(m1, w[3] as int, *err) } else { m1 };
                        match ev_stmts(p, b, s as nat, statement_block_of(&p.execution, w[4])->0, 0, Seq::empty(), m2, span, y) {
                            Err(e) => Err(e),
                            Ok((StmtEnd::Done, m3)) => Err(guard_error(span)),
                            Ok((end, m3)) => Ok((end, m3)),
                        }
                    },
                    Ok((Flow::Next(v), m1)) => Err(type_error("guard expected Result, found "@ + spec_type_name(v), span)),
                }
            } else {
                Err(fault(cs))
            },
            FullTag::StmtFor => if w.len() == 3 && w[1] < s && statement_block_of(&p.execution, w[2]) is Some {
                match ev_expr(p, b, w[1], m, cs) {
                    Err(e) => Err(e),
                    Ok((Flow::Exit(v), m1)) => Ok((StmtEnd::Propagate(v), m1)),
                    Ok((Flow::Next(ValueModel::List(items)), m1)) =>
                        ev_for(p, b, s, w[0] as nat, statement_block_of(&p.execution, w[2])->0, items, 0, m1, cs, y),
                    Ok((Flow::Next(v), m1)) => Err(type_error("for expected List, found "@ + spec_type_name(v), cs)),
                }
            } else {
                Err(fault(cs))
            },
            FullTag::StmtMatch => if w.len() == 5 && w[0] < s && list_items(p, w[1], 3) is Some {
                match ev_expr(p, b, w[0], m, cs) {
                    Err(e) => Err(e),
                    Ok((Flow::Exit(v), m1)) => Ok((StmtEnd::Propagate(v), m1)),
                    Ok((Flow::Next(v), m1)) => ev_arms(p, b, s, list_items(p, w[1], 3)->0, 0, v, m1, cs, span_of(w.skip(2)), y),
                }
            } else {
                Err(fault(cs))
            },
            FullTag::StmtWhile => if w.len() == 2 && statement_block_of(&p.execution, w[1]) is Some {
                ev_while(p, b, s, Some(w[0]), statement_block_of(&p.execution, w[1])->0, MAX_LOOP_ROUNDS as nat, m, cs, y)
            } else {
                Err(fault(cs))
            },
            FullTag::StmtLoop => if w.len() == 1 && statement_block_of(&p.execution, w[0]) is Some {
                ev_while(p, b, s, None, statement_block_of(&p.execution, w[0])->0, MAX_LOOP_ROUNDS as nat, m, cs, y)
            } else {
                Err(fault(cs))
            },
            FullTag::StmtForLines => if w.len() == 6 && w[1] < s && statement_block_of(&p.execution, w[2]) is Some {
                match ev_expr(p, b, w[1], m, cs) {
                    Err(e) => Err(e),
                    Ok((Flow::Exit(v), m1)) => Ok((StmtEnd::Propagate(v), m1)),
                    Ok((Flow::Next(v), m1)) => match crate::lines::line_values(v) {
                        Some(items) => ev_for(p, b, s, w[0] as nat, statement_block_of(&p.execution, w[2])->0, items, 0, m1, cs, y),
                        None => Err(type_error("lowered for lines expected Str or Bytes"@, span_of(w.skip(3)))),
                    },
                }
            } else {
                Err(fault(cs))
            },
            _ => Err(fault(cs)),
        }
    }
}

/// Calling the function `name` names with `args`, with depth budget `b`
/// left: it must exist, and the call uses up one unit of the budget.
pub open spec fn named_call(p: FullProgram, b: nat, name: u32, args: Seq<ValueModel>, span: Span) -> Result<ValueModel, ErrorModel>
    decreases b, 0nat, 0nat, 0int,
{
    match named_function(p, name) {
        None => Err(err_model("unresolved-lowered-call"@, p.execution.strings@[name as int]@, Some(span))),
        Some(f) => if b == 0 {
            Err(depth_error(span))
        } else {
            ev_function(p, (b - 1) as nat, f, args, span)
        },
    }
}

/// Calling function `f` with `args` and depth budget `b`, from a call at `span`.
pub open spec fn ev_function(p: FullProgram, b: nat, f: nat, args: Seq<ValueModel>, span: Span) -> Result<ValueModel, ErrorModel>
    decreases b, p.execution.instructions@.len() + 1, 0nat, 0int,
{
    if f >= p.functions@.len() {
        Err(fault(span))
    } else {
        let func = p.functions@[f as int];
        let h = func.header;
        if args.len() != h.param_count {
            Err(arity_error(h.param_count as nat, args.len(), span))
        } else if h.slot_count < h.param_count {
            Err(fault(span))
        } else {
            match statement_block_of(&p.execution, func.body) {
                None => Err(fault(span)),
                Some(ss) => match ev_stmts(
                    p, b, p.execution.instructions@.len(), ss, 0, Seq::empty(),
                    Machine { slots: bind_slots(args, h.slot_count as nat), yielded: Seq::empty() }, span,
                    h.return_kind == LoweredType::Stream,
                ) {
                    Err(e) => Err(e),
                    Ok((end, m)) => function_result(h.return_kind, end, m.yielded, span),
                },
            }
        }
    }
}

} // verus!
