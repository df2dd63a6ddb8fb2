//! Entry points into the direct evaluator: calling a function of the
//! installed program by key, typed evaluation of conditions and integers,
//! and the fast paths for field chains and item predicates.
use vstd::prelude::*;
use vstd::string::*;
use crate::value::{Span, RuntimeError, ErrorModel, err_model, Value, ValueModel, model_list, clone_value, entries_lookup};
use crate::ir::{FullProgram, FullTag, FunctionHeader, LoweredFunctionKey, LoweredFunctionKind, LoweredType, BinaryOp};
use crate::semantics::{Flow, Machine, fault, type_error, condition_of, expected_bool, function_index, ev_expr, ev_function};
use crate::interp::{
    IndexedFlow, machine_of, kept, value_outcome, fault_error, instruction_at, frame_condition_bool,
};
use crate::shapes::IndexedItemPredicate;
use crate::evaluator::{Evaluator, cache_valid};

verus! {

/// How many calls deep a direct evaluation may nest.
pub const MAX_INDEXED_EVAL_DEPTH: u32 = 256;

/// What calling function `name` of `kind` directly gives: nothing when the
/// program has no such function or the arguments do not fit its parameters,
/// else the function's result with the full depth budget.
pub open spec fn direct_call(
    p: FullProgram,
    name: u32,
    kind: LoweredFunctionKind,
    args: Seq<ValueModel>,
    span: Span,
) -> Option<Result<ValueModel, ErrorModel>> {
    match function_index(p, name, kind) {
        None => None,
        Some(f) => if args.len() != p.functions@[f as int].header.param_count {
            None
        } else {
            Some(ev_function(p, MAX_INDEXED_EVAL_DEPTH as nat, f, args, span))
        },
    }
}

/// A direct call agrees with the semantics.
pub open spec fn direct_outcome(r: Option<Result<Value, RuntimeError>>, s: Option<Result<ValueModel, ErrorModel>>) -> bool {
    match s {
        None => r is None,
        Some(Ok(v)) => r matches Some(Ok(x)) && x@ == v,
        Some(Err(e)) => r matches Some(Err(x)) && x@ == e,
    }
}

/// A cache that holds no positions is valid for every program.
pub proof fn lemma_empty_cache_valid(cache: Map<u64, usize>, p: FullProgram)
    requires
        cache == crate::evaluator::no_positions(),
    ensures
        cache_valid(cache, p),
{
}

impl Evaluator {
    /// Whether the cached function positions belong to the installed program.
    pub open spec fn program_cache_ok(&self) -> bool {
        match self.indexed_program {
            Some(p) => cache_valid(self.indexed_function_cache@, p),
            None => true,
        }
    }

    /// Copies call arguments into a vector.
    fn copy_args(args: &[Value]) -> (r: Vec<Value>)
        ensures
            model_list(r@) == model_list(args@),
    {
        let mut out: Vec<Value> = Vec::new();
        let mut i: usize = 0;
        while i < args.len()
            invariant
                i <= args@.len(),
                out@.len() == i,
                forall|k: int| 0 <= k < i ==> (#[trigger] out@[k])@ == args@[k]@,
            decreases args@.len() - i,
        {
            out.push(clone_value(&args[i]));
            i = i + 1;
        }
        assert(model_list(out@) =~= model_list(args@));
        out
    }

    /// Calls function `function` of `kind` of the installed program: `None`
    /// when no program is installed, when the program has no such function,
    /// or when the arguments do not fit its parameters.
    #[verifier::rlimit(50)]
    pub fn call_indexed_direct(
        &mut self,
        function: LoweredFunctionKey,
        kind: LoweredFunctionKind,
        args: &[Value],
        call_span: Span,
    ) -> (r: Option<Result<Value, RuntimeError>>)
        requires
            old(self).program_cache_ok(),
        ensures
            final(self).program_cache_ok(),
            final(self).indexed_program == old(self).indexed_program,
            final(self).call_stack@ == old(self).call_stack@,
            match old(self).indexed_program {
                None => r is None,
                Some(p) => direct_outcome(r, direct_call(p, function.name.id, kind, model_list(args@), call_span)),
            },
    {
        let program = match self.indexed_program.take() {
            Some(p) => p,
            None => return None,
        };
        let r = self.call_indexed_direct_in_program(&program, function, kind, args, call_span);
        self.indexed_program = Some(program);
        r
    }

    /// Calls function `function` of `kind` of `program` with `args`.
    pub fn call_indexed_direct_in_program(
        &mut self,
        program: &FullProgram,
        function: LoweredFunctionKey,
        kind: LoweredFunctionKind,
        args: &[Value],
        call_span: Span,
    ) -> (r: Option<Result<Value, RuntimeError>>)
        requires
            cache_valid(old(self).indexed_function_cache@, *program),
        ensures
            kept(*old(self), *final(self), *program),
            final(self).stream_items == old(self).stream_items,
            direct_outcome(r, direct_call(*program, function.name.id, kind, model_list(args@), call_span)),
    {
        let index = match self.indexed_function_index(program, function, kind) {
            Some(i) => i,
            None => return None,
        };
        if args.len() != program.functions[index].header.param_count {
            return None;
        }
        let values = Self::copy_args(args);
        Some(self.eval_indexed_call_frame(program, MAX_INDEXED_EVAL_DEPTH, function, kind, index, values, call_span))
    }

    /// Calls the pure function `function` names, with `budget` calls of depth
    /// left.
    pub fn eval_indexed_direct_pure_call(
        &mut self,
        program: &FullProgram,
        budget: u32,
        function: LoweredFunctionKey,
        args: Vec<Value>,
        call_span: Span,
    ) -> (r: Result<Value, RuntimeError>)
        requires
            cache_valid(old(self).indexed_function_cache@, *program),
            (function.name.id as int) < program.execution.strings@.len(),
        ensures
            kept(*old(self), *final(self), *program),
            final(self).stream_items == old(self).stream_items,
            value_outcome(r, match function_index(*program, function.name.id, LoweredFunctionKind::Pure) {
                None => Err(err_model("unresolved-lowered-call"@, program.execution.strings@[function.name.id as int]@, Some(call_span))),
                Some(f) => if budget == 0 {
                    Err(crate::semantics::depth_error(call_span))
                } else {
                    ev_function(*program, (budget - 1) as nat, f, model_list(args@), call_span)
                },
            }),
    {
        let index = match self.indexed_function_index(program, function, LoweredFunctionKind::Pure) {
            Some(i) => i,
            None => {
                let name = program.execution.strings[function.name.id as usize].clone();
                return Err(RuntimeError::new_owned("unresolved-lowered-call", name).with_span(call_span));
            },
        };
        if budget == 0 {
            return Err(RuntimeError::new("stack-overflow", "indexed evaluation is nested too deeply").with_span(call_span));
        }
        self.eval_indexed_call_frame(program, budget - 1, function, LoweredFunctionKind::Pure, index, args, call_span)
    }

    /// A recursive call of the function `function` names: resolved as any
    /// named call, run without a traceback frame of its own.
    pub fn eval_indexed_self_call(
        &mut self,
        program: &FullProgram,
        budget: u32,
        function: LoweredFunctionKey,
        args: Vec<Value>,
        call_span: Span,
    ) -> (r: Result<Value, RuntimeError>)
        requires
            cache_valid(old(self).indexed_function_cache@, *program),
            (function.name.id as int) < program.execution.strings@.len(),
        ensures
            kept(*old(self), *final(self), *program),
            final(self).stream_items == old(self).stream_items,
            value_outcome(r, crate::semantics::named_call(*program, budget as nat, function.name.id, model_list(args@), call_span)),
    {
        let index = match self.indexed_function_index(program, function, LoweredFunctionKind::Pure) {
            Some(i) => i,
            None => match self.indexed_function_index(program, function, LoweredFunctionKind::Proc) {
                Some(i) => i,
                None => {
                    let name = program.execution.strings[function.name.id as usize].clone();
                    return Err(RuntimeError::new_owned("unresolved-lowered-call", name).with_span(call_span));
                },
            },
        };
        assert(crate::semantics::named_function(*program, function.name.id) == Some(index as nat));
        if budget == 0 {
            return Err(RuntimeError::new("stack-overflow", "indexed evaluation is nested too deeply").with_span(call_span));
        }
        let mut saved: Vec<Value> = Vec::new();
        std::mem::swap(&mut saved, &mut self.stream_items);
        let r = self.eval_indexed_function(program, budget - 1, index, args, call_span);
        self.stream_items = saved;
        r
    }

    /// The header of a top-level block run as a frame of `slot_count` slots.
    pub fn indexed_block_header(slot_count: usize) -> (h: FunctionHeader)
        ensures
            h == (FunctionHeader { param_count: 0, return_kind: LoweredType::Unit, slot_count }),
    {
        FunctionHeader { param_count: 0, return_kind: LoweredType::Unit, slot_count }
    }

    /// Whether function `index` can run on explicit frames: every function
    /// but a stream producer can.
    pub fn indexed_frames_supported(&self, program: &FullProgram, index: usize, span: Span) -> (r: Result<bool, RuntimeError>)
        ensures
            match r {
                Ok(b) => index < program.functions@.len()
                    && b == (program.functions@[index as int].header.return_kind != LoweredType::Stream),
                Err(e) => index >= program.functions@.len() && e@ == fault(span),
            },
    {
        if index >= program.functions.len() {
            return Err(fault_error(span));
        }
        Ok(match program.functions[index].header.return_kind {
            LoweredType::Stream => false,
            _ => true,
        })
    }
}

} // verus!

verus! {

/// A condition evaluated at `id`: a boolean or a status's success, or a
/// propagated value.
pub open spec fn ev_bool(p: FullProgram, b: nat, id: u32, m: Machine, cs: Span) -> Result<(Result<bool, ValueModel>, Machine), ErrorModel> {
    match ev_expr(p, b, id, m, cs) {
        Err(e) => Err(e),
        Ok((Flow::Exit(v), m1)) => Ok((Err(v), m1)),
        Ok((Flow::Next(v), m1)) => match condition_of(v) {
            Some(x) => Ok((Ok(x), m1)),
            None => Err(expected_bool(cs)),
        },
    }
}

/// A boolean expression evaluated at `id`: a boolean, or a status read as
/// its success.
pub open spec fn ev_typed_bool(p: FullProgram, b: nat, id: u32, m: Machine, cs: Span) -> Result<(Result<bool, ValueModel>, Machine), ErrorModel> {
    match ev_expr(p, b, id, m, cs) {
        Err(e) => Err(e),
        Ok((Flow::Exit(v), m1)) => Ok((Err(v), m1)),
        Ok((Flow::Next(ValueModel::Bool(x)), m1)) => Ok((Ok(x), m1)),
        Ok((Flow::Next(ValueModel::Status { success, .. }), m1)) => Ok((Ok(success), m1)),
        Ok((Flow::Next(_), _)) => Err(expected_bool(cs)),
    }
}

/// An integer expression evaluated at `id`.
pub open spec fn ev_typed_int(p: FullProgram, b: nat, id: u32, m: Machine, cs: Span) -> Result<(Result<i64, ValueModel>, Machine), ErrorModel> {
    match ev_expr(p, b, id, m, cs) {
        Err(e) => Err(e),
        Ok((Flow::Exit(v), m1)) => Ok((Err(v), m1)),
        Ok((Flow::Next(ValueModel::Int(n)), m1)) => Ok((Ok(n), m1)),
        Ok((Flow::Next(_), _)) => Err(type_error("lowered expression expected Int"@, cs)),
    }
}

/// A typed run agrees with the semantics.
pub open spec fn typed_outcome<T>(
    r: Result<Result<T, Value>, RuntimeError>,
    s: Result<(Result<T, ValueModel>, Machine), ErrorModel>,
    slots: Seq<Value>,
    yielded: Seq<Value>,
) -> bool {
    match s {
        Ok((Ok(x), m)) => r matches Ok(Ok(y)) && y == x && machine_of(slots, yielded) == m,
        Ok((Err(v), m)) => r matches Ok(Err(y)) && y@ == v && machine_of(slots, yielded) == m,
        Err(e) => r is Err && r->Err_0@ == e,
    }
}

impl Evaluator {
    /// Evaluates an expression when there is one.
    pub fn eval_indexed_optional_expr(
        &mut self,
        program: &FullProgram,
        budget: u32,
        instruction: Option<u32>,
        slots: &mut Vec<Value>,
        call_span: Span,
    ) -> (r: Result<Option<IndexedFlow>, RuntimeError>)
        requires
            cache_valid(old(self).indexed_function_cache@, *program),
        ensures
            kept(*old(self), *final(self), *program),
            match instruction {
                None => r matches Ok(None) && final(slots)@ == old(slots)@ && final(self).stream_items@ == old(self).stream_items@,
                Some(i) => match ev_expr(*program, budget as nat, i, machine_of(old(slots)@, old(self).stream_items@), call_span) {
                    Ok((f, m)) => r matches Ok(Some(x)) && x@ == f && machine_of(final(slots)@, final(self).stream_items@) == m,
                    Err(e) => r matches Err(x) && x@ == e,
                },
            },
    {
        match instruction {
            None => Ok(None),
            Some(i) => {
                let flow = self.eval_indexed_expr(program, budget, i, slots, call_span)?;
                Ok(Some(flow))
            },
        }
    }

    /// Evaluates a condition: a boolean, or a status's success.
    pub fn eval_indexed_bool(
        &mut self,
        program: &FullProgram,
        budget: u32,
        instruction: u32,
        slots: &mut Vec<Value>,
        call_span: Span,
    ) -> (r: Result<Result<bool, Value>, RuntimeError>)
        requires
            cache_valid(old(self).indexed_function_cache@, *program),
        ensures
            kept(*old(self), *final(self), *program),
            typed_outcome(r, ev_bool(*program, budget as nat, instruction, machine_of(old(slots)@, old(self).stream_items@), call_span),
                final(slots)@, final(self).stream_items@),
    {
        match self.eval_indexed_expr(program, budget, instruction, slots, call_span)? {
            IndexedFlow::Break(v) => Ok(Err(v)),
            IndexedFlow::Continue(v) => {
                let b = frame_condition_bool(v, call_span)?;
                Ok(Ok(b))
            },
        }
    }

    /// Evaluates an expression that must give a boolean; a status gives its
    /// success.
    pub fn eval_indexed_typed_bool(
        &mut self,
        program: &FullProgram,
        budget: u32,
        instruction: u32,
        slots: &mut Vec<Value>,
        call_span: Span,
    ) -> (r: Result<Result<bool, Value>, RuntimeError>)
        requires
            cache_valid(old(self).indexed_function_cache@, *program),
        ensures
            kept(*old(self), *final(self), *program),
            typed_outcome(r, ev_typed_bool(*program, budget as nat, instruction, machine_of(old(slots)@, old(self).stream_items@), call_span),
                final(slots)@, final(self).stream_items@),
    {
        match self.eval_indexed_expr(program, budget, instruction, slots, call_span)? {
            IndexedFlow::Break(v) => Ok(Err(v)),
            IndexedFlow::Continue(Value::Bool(b)) => Ok(Ok(b)),
            IndexedFlow::Continue(Value::Status { success, .. }) => Ok(Ok(success)),
            IndexedFlow::Continue(_) => Err(RuntimeError::new("type-error", "lowered expression expected Bool").with_span(call_span)),
        }
    }

    /// Evaluates an expression that must give an integer.
    pub fn eval_indexed_typed_int(
        &mut self,
        program: &FullProgram,
        budget: u32,
        instruction: u32,
        slots: &mut Vec<Value>,
        call_span: Span,
    ) -> (r: Result<Result<i64, Value>, RuntimeError>)
        requires
            cache_valid(old(self).indexed_function_cache@, *program),
        ensures
            kept(*old(self), *final(self), *program),
            typed_outcome(r, ev_typed_int(*program, budget as nat, instruction, machine_of(old(slots)@, old(self).stream_items@), call_span),
                final(slots)@, final(self).stream_items@),
    {
        match self.eval_indexed_expr(program, budget, instruction, slots, call_span)? {
            IndexedFlow::Break(v) => Ok(Err(v)),
            IndexedFlow::Continue(Value::Int(n)) => Ok(Ok(n)),
            IndexedFlow::Continue(_) => Err(RuntimeError::new("type-error", "lowered expression expected Int").with_span(call_span)),
        }
    }
}

/// The value a chain of field reads off a slot reaches without copying:
/// `None` once a link is not a record or the chain does not start at a slot.
pub open spec fn field_chain_of(p: FullProgram, id: u32, slots: Seq<ValueModel>, span: Span) -> Result<Option<ValueModel>, ErrorModel>
    decreases id,
{
    if id as int >= p.execution.instructions@.len() {
        Err(fault(span))
    } else {
        let ins = p.execution.instructions@[id as int];
        let w = ins.words@;
        match ins.tag {
            FullTag::ExprParam => if w.len() != 1 {
                Err(fault(span))
            } else if (w[0] as int) < slots.len() {
                Ok(Some(slots[w[0] as int]))
            } else {
                Err(err_model("indexed-ir"@, "field base slot is out of bounds"@, Some(span)))
            },
            FullTag::ExprField => if w.len() == 5 && w[0] < id && (w[1] as int) < p.execution.strings@.len() {
                let name = p.execution.strings@[w[1] as int]@;
                let fspan = crate::runs::span_of(w.skip(2));
                match field_chain_of(p, w[0], slots, fspan) {
                    Err(e) => Err(e),
                    Ok(None) => Ok(None),
                    Ok(Some(ValueModel::Record(e))) => match entries_lookup(e, name) {
                        Some(v) => Ok(Some(v)),
                        None => Err(err_model("missing-field"@, name, Some(fspan))),
                    },
                    Ok(Some(ValueModel::Module(e))) => match entries_lookup(e, name) {
                        Some(v) => Ok(Some(v)),
                        None => Err(err_model("missing-field"@, name, Some(fspan))),
                    },
                    Ok(Some(_)) => Ok(None),
                }
            } else {
                Err(fault(span))
            },
            _ => Ok(None),
        }
    }
}

impl Evaluator {
    /// The value a chain of field reads off a slot reaches, borrowed in place.
    pub fn indexed_field_chain_ref<'a>(
        program: &FullProgram,
        instruction: u32,
        slots: &'a Vec<Value>,
        span: Span,
    ) -> (r: Result<Option<&'a Value>, RuntimeError>)
        ensures
            match field_chain_of(*program, instruction, model_list(slots@), span) {
                Ok(Some(v)) => r matches Ok(Some(x)) && x@ == v,
                Ok(None) => r matches Ok(None),
                Err(e) => r matches Err(x) && x@ == e,
            },
        decreases instruction,
    {
        let (tag, w) = match instruction_at(program, instruction) {
            Some(x) => x,
            None => return Err(fault_error(span)),
        };
        match tag {
            FullTag::ExprParam => {
                if w.len() != 1 {
                    return Err(fault_error(span));
                }
                if (w[0] as usize) < slots.len() {
                    Ok(Some(&slots[w[0] as usize]))
                } else {
                    Err(RuntimeError::new("indexed-ir", "field base slot is out of bounds").with_span(span))
                }
            },
            FullTag::ExprField => {
                if !(w.len() == 5 && w[0] < instruction && (w[1] as usize) < program.execution.strings.len()) {
                    return Err(fault_error(span));
                }
                let name = &program.execution.strings[w[1] as usize];
                let fspan = crate::interp::span_at(w, 2);
                let base = match Self::indexed_field_chain_ref(program, w[0], slots, fspan)? {
                    Some(b) => b,
                    None => return Ok(None),
                };
                match base {
                    Value::Record(e) | Value::Module(e) => match crate::value::record_get(e, name.as_str()) {
                        Some(v) => Ok(Some(v)),
                        None => Err(RuntimeError::new("missing-field", name.as_str()).with_span(fspan)),
                    },
                    _ => Ok(None),
                }
            },
            _ => Ok(None),
        }
    }
}

/// Whether an item satisfies a recognized predicate: a string comparison of
/// one of its fields, or a conjunction or disjunction, decided left first.
pub open spec fn item_predicate_holds(pred: IndexedItemPredicate, item: ValueModel, span: Span) -> Result<bool, ErrorModel>
    decreases pred,
{
    match pred {
        IndexedItemPredicate::StringCompare { field, op, value } => {
            let found = match item {
                ValueModel::Record(e) => entries_lookup(e, field@),
                ValueModel::Module(e) => entries_lookup(e, field@),
                _ => None,
            };
            match found {
                None => Err(err_model("missing-field"@, field@, Some(span))),
                Some(v) => {
                    let equal = v == ValueModel::Str(value@);
                    Ok(if op == BinaryOp::Eq { equal } else { !equal })
                },
            }
        },
        IndexedItemPredicate::And(l, r) => match item_predicate_holds(*l, item, span) {
            Err(e) => Err(e),
            Ok(false) => Ok(false),
            Ok(true) => item_predicate_holds(*r, item, span),
        },
        IndexedItemPredicate::Or(l, r) => match item_predicate_holds(*l, item, span) {
            Err(e) => Err(e),
            Ok(true) => Ok(true),
            Ok(false) => item_predicate_holds(*r, item, span),
        },
    }
}

impl Evaluator {
    /// Decides a recognized predicate on a pipeline item.
    pub fn eval_indexed_item_predicate(
        &mut self,
        predicate: &IndexedItemPredicate,
        item: &Value,
        span: Span,
    ) -> (r: Result<bool, RuntimeError>)
        ensures
            *final(self) == *old(self),
            match item_predicate_holds(*predicate, item@, span) {
                Ok(b) => r == Ok::<bool, RuntimeError>(b),
                Err(e) => r matches Err(x) && x@ == e,
            },
        decreases predicate,
    {
        match predicate {
            IndexedItemPredicate::StringCompare { field, op, value } => {
                let found = match item {
                    Value::Record(e) | Value::Module(e) => crate::value::record_get(e, field.as_str()),
                    _ => None,
                };
                match found {
                    None => Err(RuntimeError::new("missing-field", field.as_str()).with_span(span)),
                    Some(v) => {
                        let equal = match v {
                            Value::Str(text) => {
                                let same = *text == *value;
                                proof {
                                    if same {
                                        assert(v@ == ValueModel::Str(value@));
                                    } else {
                                        assert(v@ != ValueModel::Str(value@));
                                    }
                                }
                                same
                            },
                            _ => false,
                        };
                        Ok(if *op == BinaryOp::Eq { equal } else { !equal })
                    },
                }
            },
            IndexedItemPredicate::And(l, r) => {
                if !self.eval_indexed_item_predicate(l, item, span)? {
                    return Ok(false);
                }
                self.eval_indexed_item_predicate(r, item, span)
            },
            IndexedItemPredicate::Or(l, r) => {
                if self.eval_indexed_item_predicate(l, item, span)? {
                    return Ok(true);
                }
                self.eval_indexed_item_predicate(r, item, span)
            },
        }
    }
}

/// Takes a method receiver out of the slot it was read from, leaving `Unit`
/// there, when `consume` names that slot and it still holds a value equal
/// to the receiver (values carry no shared storage here, so equality is
/// what is tested); the receiver comes back either way.
pub fn take_consumed_receiver(slots: &mut Vec<Value>, consume: Option<usize>, receiver: Value) -> (r: Value)
    ensures
        r@ == receiver@,
        match consume {
            Some(slot) => if slot < old(slots)@.len() && old(slots)@[slot as int]@ == receiver@ {
                model_list(final(slots)@) == model_list(old(slots)@).update(slot as int, ValueModel::Unit)
            } else {
                final(slots)@ == old(slots)@
            },
            None => final(slots)@ == old(slots)@,
        },
{
    let slot = match consume {
        Some(slot) => slot,
        None => return receiver,
    };
    if slot >= slots.len() {
        return receiver;
    }
    if !crate::value::values_equal(&slots[slot], &receiver) {
        return receiver;
    }
    let ghost before = model_list(slots@);
    slots.set(slot, Value::Unit);
    assert(model_list(slots@) =~= before.update(slot as int, ValueModel::Unit));
    receiver
}

} // verus!
