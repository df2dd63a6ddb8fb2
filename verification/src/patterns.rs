//! Patterns of `match` arms. A pattern is an instruction of the program
//! with one of the pattern tags; matching a value may bind parts of it to
//! slots.
use vstd::prelude::*;
use crate::value::{Value, ValueModel, model_list, clone_value, values_equal, RuntimeError, ErrorModel, Span};
use crate::ir::{FullProgram, FullTag};
use crate::semantics::fault;
use crate::interp::{fault_error, instruction_at, int_from_words, list_block_words};

verus! {

/// The constant an instruction stands for, when it is a `null`, unit,
/// boolean, integer or text literal.
pub open spec fn const_value(p: FullProgram, id: u32) -> Option<ValueModel> {
    if id as int >= p.execution.instructions@.len() {
        None
    } else {
        let ins = p.execution.instructions@[id as int];
        let w = ins.words@;
        match ins.tag {
            FullTag::ExprNull => if w.len() == 0 { Some(ValueModel::Null) } else { None },
            FullTag::ExprUnit => if w.len() == 0 { Some(ValueModel::Unit) } else { None },
            FullTag::ExprBool => if w.len() == 1 && w[0] <= 1 { Some(ValueModel::Bool(w[0] == 1)) } else { None },
            FullTag::ExprInt => if w.len() == 2 {
                Some(ValueModel::Int(crate::decode::i64_of_words(w[0], w[1]) as i64))
            } else {
                None
            },
            FullTag::ExprStr => if w.len() == 1 && (w[0] as int) < p.execution.strings@.len() {
                Some(ValueModel::Str(p.execution.strings@[w[0] as int]@))
            } else {
                None
            },
            _ => None,
        }
    }
}

/// Binding `v` to `slot` when `has` is 1; the slot must exist.
pub open spec fn bind_opt(has: u32, slot: u32, v: ValueModel, sl: Seq<ValueModel>, cs: Span)
    -> Result<Seq<ValueModel>, ErrorModel>
{
    if has == 0 {
        Ok(sl)
    } else if (slot as int) < sl.len() {
        Ok(sl.update(slot as int, v))
    } else {
        Err(fault(cs))
    }
}

/// Binding the fields of a tag to the (flag, slot) pairs `fw[2 * k..]`.
pub open spec fn bind_tag_fields(fw: Seq<u32>, k: nat, fields: Seq<ValueModel>, sl: Seq<ValueModel>, cs: Span)
    -> Result<Seq<ValueModel>, ErrorModel>
    decreases fields.len() - k,
{
    if k >= fields.len() {
        Ok(sl)
    } else {
        match bind_opt(fw[2 * k as int], fw[(2 * k + 1) as int], fields[k as int], sl, cs) {
            Err(e) => Err(e),
            Ok(s2) => bind_tag_fields(fw, k + 1, fields, s2, cs),
        }
    }
}

/// Whether pattern `pat` matches `v`, and the slots after its bindings:
/// `_` matches anything; a binder matches anything and binds it; a literal
/// matches an equal value; `Ok(x)` and `Err(x)` match that kind of result
/// (only with a unit inside when `unit_only`) and may bind what is inside;
/// a tag pattern matches a tag of that name and field count and may bind
/// each field. A pattern that is no pattern instruction, or names a slot
/// that does not exist, is a fault.
pub open spec fn pattern_match(p: FullProgram, pat: u32, v: ValueModel, sl: Seq<ValueModel>, cs: Span)
    -> Result<(bool, Seq<ValueModel>), ErrorModel>
{
    if pat as int >= p.execution.instructions@.len() {
        Err(fault(cs))
    } else {
        let ins = p.execution.instructions@[pat as int];
        let w = ins.words@;
        match ins.tag {
            FullTag::PatWildcard => if w.len() == 0 { Ok((true, sl)) } else { Err(fault(cs)) },
            FullTag::PatBind => if w.len() == 1 && (w[0] as int) < sl.len() {
                Ok((true, sl.update(w[0] as int, v)))
            } else {
                Err(fault(cs))
            },
            FullTag::PatLiteral => if w.len() == 1 && const_value(p, w[0]) is Some {
                Ok((const_value(p, w[0])->0 == v, sl))
            } else {
                Err(fault(cs))
            },
            FullTag::PatOk | FullTag::PatErr => if w.len() == 3 && w[0] <= 1 && w[2] <= 1 {
                let inner = match v {
                    ValueModel::ResultOk(x) => if ins.tag == FullTag::PatOk { Some(*x) } else { None },
                    ValueModel::ResultErr(x) => if ins.tag == FullTag::PatErr { Some(*x) } else { None },
                    _ => None,
                };
                match inner {
                    None => Ok((false, sl)),
                    Some(x) => if w[2] == 1 && x != ValueModel::Unit {
                        Ok((false, sl))
                    } else {
                        match bind_opt(w[0], w[1], x, sl, cs) {
                            Err(e) => Err(e),
                            Ok(s2) => Ok((true, s2)),
                        }
                    },
                }
            } else {
                Err(fault(cs))
            },
            FullTag::PatTag => if w.len() == 2 && (w[0] as int) < p.execution.strings@.len()
                && crate::semantics::list_items(p, w[1], 2) is Some {
                let fw = crate::semantics::list_items(p, w[1], 2)->0;
                match v {
                    ValueModel::Tag { name, fields } =>
                        if name != p.execution.strings@[w[0] as int]@ || 2 * fields.len() != fw.len() {
                            Ok((false, sl))
                        } else {
                            match bind_tag_fields(fw, 0, fields, sl, cs) {
                                Err(e) => Err(e),
                                Ok(s2) => Ok((true, s2)),
                            }
                        },
                    _ => Ok((false, sl)),
                }
            } else {
                Err(fault(cs))
            },
            _ => Err(fault(cs)),
        }
    }
}

/// The constant of a literal instruction, if it is one.
fn const_of(program: &FullProgram, id: u32) -> (r: Option<Value>)
    ensures
        match const_value(*program, id) {
            Some(v) => r matches Some(x) && x@ == v,
            None => r is None,
        },
{
    let (tag, w) = match instruction_at(program, id) {
        Some(x) => x,
        None => return None,
    };
    match tag {
        FullTag::ExprNull => if w.len() == 0 { Some(Value::Null) } else { None },
        FullTag::ExprUnit => if w.len() == 0 { Some(Value::Unit) } else { None },
        FullTag::ExprBool => if w.len() == 1 && w[0] <= 1 { Some(Value::Bool(w[0] == 1)) } else { None },
        FullTag::ExprInt => if w.len() == 2 { Some(Value::Int(int_from_words(w[0], w[1]))) } else { None },
        FullTag::ExprStr => if w.len() == 1 && (w[0] as usize) < program.execution.strings.len() {
            Some(Value::Str(program.execution.strings[w[0] as usize].clone()))
        } else {
            None
        },
        _ => None,
    }
}

/// Puts `v` into `slot` when `has` is 1.
fn bind_slot(has: u32, slot: u32, v: Value, slots: &mut Vec<Value>, cs: Span) -> (r: Result<(), RuntimeError>)
    ensures
        match bind_opt(has, slot, v@, model_list(old(slots)@), cs) {
            Ok(sl) => r is Ok && model_list(final(slots)@) == sl,
            Err(e) => r matches Err(x) && x@ == e && final(slots)@ == old(slots)@,
        },
{
    if has == 0 {
        return Ok(());
    }
    if (slot as usize) >= slots.len() {
        return Err(fault_error(cs));
    }
    let ghost before = model_list(slots@);
    let ghost vm = v@;
    slots.set(slot as usize, v);
    assert(model_list(slots@) =~= before.update(slot as int, vm));
    Ok(())
}

/// Whether pattern `pattern` matches `value`, binding parts of it to slots.
pub fn indexed_pattern_matches(
    program: &FullProgram,
    pattern: u32,
    value: &Value,
    slots: &mut Vec<Value>,
    span: Span,
) -> (r: Result<bool, RuntimeError>)
    ensures
        match pattern_match(*program, pattern, value@, model_list(old(slots)@), span) {
            Ok((b, sl)) => r == Ok::<bool, RuntimeError>(b) && model_list(final(slots)@) == sl,
            Err(e) => r matches Err(x) && x@ == e,
        },
{
    let (tag, w) = match instruction_at(program, pattern) {
        Some(x) => x,
        None => return Err(fault_error(span)),
    };
    match tag {
        FullTag::PatWildcard => if w.len() == 0 { Ok(true) } else { Err(fault_error(span)) },
        FullTag::PatBind => {
            if !(w.len() == 1 && (w[0] as usize) < slots.len()) {
                return Err(fault_error(span));
            }
            bind_slot(1, w[0], clone_value(value), slots, span)?;
            Ok(true)
        },
        FullTag::PatLiteral => {
            if w.len() != 1 {
                return Err(fault_error(span));
            }
            match const_of(program, w[0]) {
                Some(c) => Ok(values_equal(&c, value)),
                None => Err(fault_error(span)),
            }
        },
        FullTag::PatOk | FullTag::PatErr => {
            if !(w.len() == 3 && w[0] <= 1 && w[2] <= 1) {
                return Err(fault_error(span));
            }
            let inner = match value {
                Value::ResultOk(x) => if tag == FullTag::PatOk { Some(x) } else { None },
                Value::ResultErr(x) => if tag == FullTag::PatErr { Some(x) } else { None },
                _ => None,
            };
            match inner {
                None => Ok(false),
                Some(x) => {
                    let is_unit = match &**x {
                        Value::Unit => true,
                        _ => false,
                    };
                    assert(is_unit == (x@ == ValueModel::Unit));
                    if w[2] == 1 && !is_unit {
                        return Ok(false);
                    }
                    bind_slot(w[0], w[1], clone_value(x), slots, span)?;
                    Ok(true)
                },
            }
        },
        FullTag::PatTag => {
            if !(w.len() == 2 && (w[0] as usize) < program.execution.strings.len()) {
                return Err(fault_error(span));
            }
            let fw = match list_block_words(program, w[1], 2) {
                Some(fw) => fw,
                None => return Err(fault_error(span)),
            };
            match value {
                Value::Tag { name, fields } => {
                    let same = *name == program.execution.strings[w[0] as usize];
                    let n = fw.len();
                    if !same || 2 * (fields.len() as u128) != (n as u128) - 1 {
                        assert(name@ != program.execution.strings@[w@[0] as int]@
                            || 2 * model_list(fields@).len() != fw@.drop_first().len());
                        return Ok(false);
                    }
                    let ghost fws = fw@.drop_first();
                    let ghost fm = model_list(fields@);
                    let ghost whole = bind_tag_fields(fws, 0, fm, model_list(slots@), span);
                    let mut k: usize = 0;
                    while k < fields.len()
                        invariant
                            k <= fields@.len(),
                            fws == fw@.drop_first(),
                            n == fw@.len(),
                            fw@.len() == 2 * fields@.len() + 1,
                            fm == model_list(fields@),
                            whole == bind_tag_fields(fws, k as nat, fm, model_list(slots@), span),
                            pattern_match(*program, pattern, value@, model_list(old(slots)@), span) == match whole {
                                Err(e) => Err(e),
                                Ok(s2) => Ok::<(bool, Seq<ValueModel>), ErrorModel>((true, s2)),
                            },
                        decreases fields@.len() - k,
                    {
                        assert(fws[2 * k as int] == fw@[2 * k + 1] && fws[(2 * k + 1) as int] == fw@[2 * k + 2]);
                        bind_slot(fw[2 * k + 1], fw[2 * k + 2], clone_value(&fields[k]), slots, span)?;
                        k = k + 1;
                    }
                    Ok(true)
                },
                _ => Ok(false),
            }
        },
        _ => Err(fault_error(span)),
    }
}

} // verus!
