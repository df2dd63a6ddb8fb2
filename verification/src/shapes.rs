//! Recognizing instruction shapes the evaluator has fast paths for: a slot
//! read, a field of the item slot, a string literal, a string comparison
//! predicate, a literal record, and a summing reduce projection.
use vstd::prelude::*;
use crate::value::{Span, RuntimeError};
use crate::ir::{FullExecution, FullTag, BinaryOp, binary_op_of, Name, BLOCK_LIST, BLOCK_STATEMENTS};
use crate::decode::{
    indexed_error, indexed_value, indexed_raw, indexed_finish, indexed_decode, indexed_string,
};
use crate::evaluator::Evaluator;

verus! {

/// The slot an instruction reads, when it is a plain slot read.
pub open spec fn slot_read_of(execution: &FullExecution, instruction: u32) -> Option<Option<usize>> {
    if instruction as int >= execution.instructions@.len() {
        None
    } else {
        let ins = execution.instructions@[instruction as int];
        if ins.tag != FullTag::ExprParam {
            Some(None)
        } else if ins.words@.len() >= 1 {
            Some(Some(ins.words@[0] as usize))
        } else {
            None
        }
    }
}

/// The slot a receiver instruction reads, when it reads exactly one.
pub fn indexed_slot_read(execution: &FullExecution, instruction: u32, span: Span) -> (r: Result<Option<usize>, RuntimeError>)
    ensures
        match r {
            Ok(v) => slot_read_of(execution, instruction) == Some(v),
            Err(e) => slot_read_of(execution, instruction) is None && e@.kind == "indexed-ir"@,
        },
{
    let (tag, mut payload) = indexed_value(execution.instruction_id(instruction), span)?;
    match tag {
        FullTag::ExprParam => {
            let slot = indexed_decode::<usize>(&mut payload, execution, span)?;
            Ok(Some(slot))
        },
        _ => Ok(None),
    }
}

/// The name a field projection reads off the item slot: `Some(None)` when
/// the instruction is no field read of `item_slot`.
pub open spec fn field_projection_of(execution: &FullExecution, instruction: u32, item_slot: usize) -> Option<Option<u32>> {
    if instruction as int >= execution.instructions@.len() {
        None
    } else {
        let ins = execution.instructions@[instruction as int];
        let w = ins.words@;
        if ins.tag != FullTag::ExprField {
            Some(None)
        } else if w.len() != 5 || w[1] as int >= execution.strings@.len() || w[0] as int >= execution.instructions@.len() {
            None
        } else {
            let base = execution.instructions@[w[0] as int];
            if base.tag != FullTag::ExprParam {
                Some(None)
            } else if base.words@.len() != 1 {
                None
            } else if base.words@[0] as usize == item_slot {
                Some(Some(w[1]))
            } else {
                Some(None)
            }
        }
    }
}

impl Evaluator {
    /// The field name an instruction reads off the item slot, if it is such a
    /// read.
    pub fn indexed_field_projection<'a>(
        execution: &'a FullExecution,
        instruction: u32,
        item_slot: usize,
        span: Span,
    ) -> (r: Result<Option<&'a String>, RuntimeError>)
        ensures
            match r {
                Ok(None) => field_projection_of(execution, instruction, item_slot) == Some(None::<u32>),
                Ok(Some(name)) => field_projection_of(execution, instruction, item_slot) matches Some(Some(id))
                    && *name == execution.strings@[id as int],
                Err(e) => field_projection_of(execution, instruction, item_slot) is None && e@.kind == "indexed-ir"@,
            },
    {
        let (tag, mut payload) = indexed_value(execution.instruction_id(instruction), span)?;
        if tag != FullTag::ExprField {
            return Ok(None);
        }
        let ghost w = payload.rest();
        let base = indexed_raw(&mut payload, span)?;
        let name = indexed_string(&mut payload, execution, span)?;
        assert(payload.rest() =~= w.skip(2));
        indexed_decode::<Span>(&mut payload, execution, span)?;
        indexed_finish(payload, span)?;
        let (base_tag, mut base_payload) = indexed_value(execution.instruction_id(base), span)?;
        if base_tag != FullTag::ExprParam {
            return Ok(None);
        }
        let slot = indexed_decode::<usize>(&mut base_payload, execution, span)?;
        indexed_finish(base_payload, span)?;
        if slot == item_slot {
            Ok(Some(name))
        } else {
            Ok(None)
        }
    }
}

/// The string a literal instruction holds: `Some(None)` when it is no string
/// literal.
pub open spec fn string_literal_of(execution: &FullExecution, instruction: u32) -> Option<Option<u32>> {
    if instruction as int >= execution.instructions@.len() {
        None
    } else {
        let ins = execution.instructions@[instruction as int];
        if ins.tag != FullTag::ExprStr {
            Some(None)
        } else if ins.words@.len() == 1 && (ins.words@[0] as int) < execution.strings@.len() {
            Some(Some(ins.words@[0]))
        } else {
            None
        }
    }
}

impl Evaluator {
    /// The text of a string literal instruction, if it is one.
    pub fn indexed_string_literal(
        execution: &FullExecution,
        instruction: u32,
        span: Span,
    ) -> (r: Result<Option<String>, RuntimeError>)
        ensures
            match r {
                Ok(None) => string_literal_of(execution, instruction) == Some(None::<u32>),
                Ok(Some(text)) => string_literal_of(execution, instruction) matches Some(Some(id))
                    && text == execution.strings@[id as int],
                Err(e) => string_literal_of(execution, instruction) is None && e@.kind == "indexed-ir"@,
            },
    {
        let (tag, mut payload) = indexed_value(execution.instruction_id(instruction), span)?;
        if tag != FullTag::ExprStr {
            return Ok(None);
        }
        let value = indexed_string(&mut payload, execution, span)?;
        indexed_finish(payload, span)?;
        Ok(Some(value.clone()))
    }
}

/// A predicate on a pipeline item recognized from its instructions: a field
/// compared for (in)equality with a string, or a conjunction or disjunction.
pub enum IndexedItemPredicate {
    StringCompare { field: String, op: BinaryOp, value: String },
    And(Box<IndexedItemPredicate>, Box<IndexedItemPredicate>),
    Or(Box<IndexedItemPredicate>, Box<IndexedItemPredicate>),
}

/// The predicate instruction `instruction` spells over the item slot:
/// `Some(None)` when it spells none. Operands must precede the instruction
/// that uses them.
pub open spec fn item_predicate_of(execution: &FullExecution, instruction: u32, item_slot: usize) -> Option<Option<IndexedItemPredicate>>
    decreases instruction,
{
    if instruction as int >= execution.instructions@.len() {
        None
    } else {
        let ins = execution.instructions@[instruction as int];
        let w = ins.words@;
        if ins.tag != FullTag::ExprBinary {
            Some(None)
        } else if w.len() != 6 || binary_op_of(w[0]) is None {
            None
        } else {
            let op = binary_op_of(w[0])->0;
            let left = w[1];
            let right = w[2];
            if op == BinaryOp::And || op == BinaryOp::Or {
                if left >= instruction || right >= instruction {
                    None
                } else {
                    match item_predicate_of(execution, left, item_slot) {
                        None => None,
                        Some(None) => Some(None),
                        Some(Some(l)) => match item_predicate_of(execution, right, item_slot) {
                            None => None,
                            Some(None) => Some(None),
                            Some(Some(r)) => Some(Some(if op == BinaryOp::And {
                                IndexedItemPredicate::And(Box::new(l), Box::new(r))
                            } else {
                                IndexedItemPredicate::Or(Box::new(l), Box::new(r))
                            })),
                        },
                    }
                }
            } else if op != BinaryOp::Eq && op != BinaryOp::Ne {
                Some(None)
            } else {
                match field_projection_of(execution, left, item_slot) {
                    None => None,
                    Some(Some(field)) => match string_literal_of(execution, right) {
                        None => None,
                        Some(Some(value)) => Some(Some(IndexedItemPredicate::StringCompare { field: execution.strings@[field as int], op, value: execution.strings@[value as int] })),
                        Some(None) => match field_projection_of(execution, right, item_slot) {
                            None => None,
                            Some(Some(field2)) => match string_literal_of(execution, left) {
                                None => None,
                                Some(Some(value)) => Some(Some(IndexedItemPredicate::StringCompare { field: execution.strings@[field2 as int], op, value: execution.strings@[value as int] })),
                                Some(None) => Some(None),
                            },
                            Some(None) => Some(None),
                        },
                    },
                    Some(None) => match field_projection_of(execution, right, item_slot) {
                        None => None,
                        Some(Some(field2)) => match string_literal_of(execution, left) {
                            None => None,
                            Some(Some(value)) => Some(Some(IndexedItemPredicate::StringCompare { field: execution.strings@[field2 as int], op, value: execution.strings@[value as int] })),
                            Some(None) => Some(None),
                        },
                        Some(None) => Some(None),
                    },
                }
            }
        }
    }
}

} // verus!

verus! {

impl Evaluator {
    /// The item predicate an instruction spells over the item slot, if any.
    pub fn indexed_item_predicate(
        execution: &FullExecution,
        instruction: u32,
        item_slot: usize,
        span: Span,
    ) -> (r: Result<Option<IndexedItemPredicate>, RuntimeError>)
        ensures
            match r {
                Ok(p) => item_predicate_of(execution, instruction, item_slot) == Some(p),
                Err(e) => item_predicate_of(execution, instruction, item_slot) is None && e@.kind == "indexed-ir"@,
            },
        decreases instruction,
    {
        let (tag, mut payload) = indexed_value(execution.instruction_id(instruction), span)?;
        if tag != FullTag::ExprBinary {
            return Ok(None);
        }
        let ghost w = payload.rest();
        let op = indexed_decode::<BinaryOp>(&mut payload, execution, span)?;
        assert(w.take(1)[0] == w[0]);
        let left = indexed_raw(&mut payload, span)?;
        let right = indexed_raw(&mut payload, span)?;
        assert(payload.rest() =~= w.skip(3));
        indexed_decode::<Span>(&mut payload, execution, span)?;
        indexed_finish(payload, span)?;
        if op == BinaryOp::And || op == BinaryOp::Or {
            if left >= instruction || right >= instruction {
                return Err(RuntimeError::new("indexed-ir", "operand does not precede its instruction").with_span(span));
            }
            let l = match Self::indexed_item_predicate(execution, left, item_slot, span)? {
                Some(l) => l,
                None => return Ok(None),
            };
            let r = match Self::indexed_item_predicate(execution, right, item_slot, span)? {
                Some(r) => r,
                None => return Ok(None),
            };
            return Ok(Some(if op == BinaryOp::And {
                IndexedItemPredicate::And(Box::new(l), Box::new(r))
            } else {
                IndexedItemPredicate::Or(Box::new(l), Box::new(r))
            }));
        }
        if op != BinaryOp::Eq && op != BinaryOp::Ne {
            return Ok(None);
        }
        if let Some(field) = Self::indexed_field_projection(execution, left, item_slot, span)? {
            if let Some(value) = Self::indexed_string_literal(execution, right, span)? {
                return Ok(Some(IndexedItemPredicate::StringCompare { field: field.clone(), op, value }));
            }
        }
        if let Some(field) = Self::indexed_field_projection(execution, right, item_slot, span)? {
            if let Some(value) = Self::indexed_string_literal(execution, left, span)? {
                return Ok(Some(IndexedItemPredicate::StringCompare { field: field.clone(), op, value }));
            }
        }
        Ok(None)
    }
}

} // verus!

verus! {

/// Reading the entries of a literal record block, having read `acc` with `n`
/// entries left: `Some(None)` at the first spread entry.
pub open spec fn record_entries_from(
    rest: Seq<u32>,
    n: nat,
    string_count: nat,
    acc: Seq<(Name, u32)>,
) -> Option<Option<Seq<(Name, u32)>>>
    decreases n,
{
    if n == 0 {
        if rest.len() == 0 { Some(Some(acc)) } else { None }
    } else if rest.len() == 0 {
        None
    } else if rest[0] != 0 {
        Some(None)
    } else if rest.len() < 3 || rest[1] as nat >= string_count {
        None
    } else {
        record_entries_from(rest.skip(3), (n - 1) as nat, string_count, acc.push((Name { id: rest[1] }, rest[2])))
    }
}

/// The plain fields of a literal record instruction: `Some(None)` when it is
/// no record literal or has a spread entry.
pub open spec fn record_fields_of(execution: &FullExecution, instruction: u32) -> Option<Option<Seq<(Name, u32)>>> {
    if instruction as int >= execution.instructions@.len() {
        None
    } else {
        let ins = execution.instructions@[instruction as int];
        let w = ins.words@;
        if ins.tag != FullTag::ExprRecord {
            Some(None)
        } else if w.len() == 0 || !execution.block_ok(w[0], BLOCK_LIST) {
            None
        } else {
            let b = execution.blocks@[w[0] as int].words@;
            if b.len() == 0 || w.len() != 1 {
                None
            } else {
                record_entries_from(b.drop_first(), b[0] as nat, execution.strings@.len(), Seq::empty())
            }
        }
    }
}

impl Evaluator {
    /// The fields of a literal record instruction, when all are plain fields.
    pub fn indexed_record_fields(
        execution: &FullExecution,
        instruction: u32,
        span: Span,
    ) -> (r: Result<Option<Vec<(Name, u32)>>, RuntimeError>)
        ensures
            match r {
                Ok(None) => record_fields_of(execution, instruction) == Some(None::<Seq<(Name, u32)>>),
                Ok(Some(fields)) => record_fields_of(execution, instruction) == Some(Some(fields@)),
                Err(e) => record_fields_of(execution, instruction) is None && e@.kind == "indexed-ir"@,
            },
    {
        let (tag, mut payload) = indexed_value(execution.instruction_id(instruction), span)?;
        if tag != FullTag::ExprRecord {
            return Ok(None);
        }
        let ghost w = payload.rest();
        let (_, mut entries) = match execution.block(&mut payload, BLOCK_LIST) {
            Ok(x) => x,
            Err(error) => return Err(indexed_error(error, span)),
        };
        let ghost b = entries.rest();
        let len = indexed_raw(&mut entries, span)? as usize;
        indexed_finish(payload, span)?;
        assert(w.len() == 1);
        assert(record_fields_of(execution, instruction)
            == record_entries_from(b.drop_first(), len as nat, execution.strings@.len(), Seq::empty()));
        let mut fields: Vec<(Name, u32)> = Vec::new();
        let mut i: usize = 0;
        while i < len
            invariant
                entries.wf(),
                i <= len,
                b.len() > 0,
                len == b[0],
                record_fields_of(execution, instruction)
                    == record_entries_from(entries.rest(), (len - i) as nat, execution.strings@.len(), fields@),
            decreases len - i,
        {
            let ghost r0 = entries.rest();
            if indexed_raw(&mut entries, span)? != 0 {
                return Ok(None);
            }
            let name = indexed_decode::<Name>(&mut entries, execution, span)?;
            assert(r0.skip(1).take(1)[0] == r0[1]);
            let value = indexed_raw(&mut entries, span)?;
            assert(entries.rest() =~= r0.skip(3));
            fields.push((name, value));
            i = i + 1;
        }
        indexed_finish(entries, span)?;
        Ok(Some(fields))
    }
}

} // verus!

verus! {

/// How a reduce combines the values of one group.
#[derive(Clone, Copy, PartialEq, Eq, Structural, Debug)]
pub enum ReduceByOp {
    Sum,
    Min,
    Max,
    Count,
}

/// A reduce whose body only builds `{key: item.k, value: {f: item.g, ...}}`:
/// the key field, and each output field with the item field it copies.
pub struct LoweredReduceProjection {
    pub key_field: String,
    pub value_fields: Vec<(Name, String)>,
}

/// Every name a record literal yields is in the string table.
pub proof fn lemma_record_entries_names(rest: Seq<u32>, n: nat, string_count: nat, acc: Seq<(Name, u32)>)
    requires
        forall|i: int| 0 <= i < acc.len() ==> (acc[i].0.id as nat) < string_count,
        record_entries_from(rest, n, string_count, acc) matches Some(Some(out)),
    ensures
        record_entries_from(rest, n, string_count, acc) matches Some(Some(out))
            && forall|i: int| 0 <= i < out.len() ==> (out[i].0.id as nat) < string_count,
    decreases n,
{
    if n > 0 {
        let acc2 = acc.push((Name { id: rest[1] }, rest[2]));
        assert forall|i: int| 0 <= i < acc2.len() implies (acc2[i].0.id as nat) < string_count by {
            if i < acc.len() {
                assert(acc2[i] == acc[i]);
            }
        }
        lemma_record_entries_names(rest.skip(3), (n - 1) as nat, string_count, acc2);
    }
}

pub proof fn lemma_record_fields_names(execution: &FullExecution, instruction: u32)
    requires
        record_fields_of(execution, instruction) matches Some(Some(out)),
    ensures
        record_fields_of(execution, instruction) matches Some(Some(out))
            && forall|i: int| 0 <= i < out.len() ==> (out[i].0.id as nat) < execution.strings@.len(),
{
    let ins = execution.instructions@[instruction as int];
    let w = ins.words@;
    let b = execution.blocks@[w[0] as int].words@;
    lemma_record_entries_names(b.drop_first(), b[0] as nat, execution.strings@.len(), Seq::empty());
}

/// Projecting the value fields of a reduce output from the item slot,
/// having projected `acc` from the first `i`.
pub open spec fn reduce_value_fields(
    execution: &FullExecution,
    item_slot: usize,
    fields: Seq<(Name, u32)>,
    i: nat,
    acc: Seq<(Name, u32)>,
) -> Option<Option<Seq<(Name, u32)>>>
    decreases fields.len() - i,
{
    if i >= fields.len() {
        Some(Some(acc))
    } else {
        match field_projection_of(execution, fields[i as int].1, item_slot) {
            None => None,
            Some(None) => Some(None),
            Some(Some(source)) => reduce_value_fields(execution, item_slot, fields, i + 1, acc.push((fields[i as int].0, source))),
        }
    }
}

/// Walking the entries of a reduce output record from entry `i`, with the
/// key field and value fields found so far.
pub open spec fn reduce_entries(
    execution: &FullExecution,
    item_slot: usize,
    entries: Seq<(Name, u32)>,
    i: nat,
    key: Option<u32>,
    values: Option<Seq<(Name, u32)>>,
) -> Option<Option<(u32, Seq<(Name, u32)>)>>
    decreases entries.len() - i,
{
    if i >= entries.len() {
        match (key, values) {
            (Some(k), Some(v)) => Some(Some((k, v))),
            _ => Some(None),
        }
    } else {
        let (name, expr) = entries[i as int];
        let text = execution.strings@[name.id as int]@;
        if text == "key"@ {
            match field_projection_of(execution, expr, item_slot) {
                None => None,
                Some(k) => reduce_entries(execution, item_slot, entries, i + 1, k, values),
            }
        } else if text == "value"@ {
            match record_fields_of(execution, expr) {
                None => None,
                Some(None) => Some(None),
                Some(Some(fields)) => match reduce_value_fields(execution, item_slot, fields, 0, Seq::empty()) {
                    None => None,
                    Some(None) => Some(None),
                    Some(Some(projected)) => reduce_entries(execution, item_slot, entries, i + 1, key, Some(projected)),
                },
            }
        } else {
            Some(None)
        }
    }
}

/// The summing projection a reduce body and value spell: `Some(None)` when
/// they spell none.
pub open spec fn reduce_projection_of(
    execution: &FullExecution,
    item_slot: usize,
    body: u32,
    value: u32,
    op: ReduceByOp,
) -> Option<Option<(u32, Seq<(Name, u32)>)>> {
    if op != ReduceByOp::Sum {
        Some(None)
    } else if !execution.block_ok(body, BLOCK_STATEMENTS) {
        None
    } else {
        let sb = execution.blocks@[body as int].words@;
        if sb.len() == 0 {
            None
        } else if sb[0] != 0 {
            Some(None)
        } else if sb.len() != 1 {
            None
        } else {
            match record_fields_of(execution, value) {
                None => None,
                Some(None) => Some(None),
                Some(Some(entries)) => reduce_entries(execution, item_slot, entries, 0, None, None),
            }
        }
    }
}

/// Whether an exec projection is the spec one, with names resolved.
pub open spec fn projection_matches(
    execution: &FullExecution,
    p: LoweredReduceProjection,
    spec_p: (u32, Seq<(Name, u32)>),
) -> bool {
    &&& p.key_field == execution.strings@[spec_p.0 as int]
    &&& p.value_fields@.len() == spec_p.1.len()
    &&& forall|i: int| 0 <= i < spec_p.1.len() ==> p.value_fields@[i].0 == spec_p.1[i].0
        && p.value_fields@[i].1 == execution.strings@[spec_p.1[i].1 as int]
}

} // verus!

verus! {

pub open spec fn key_matches(execution: &FullExecution, key: Option<&String>, key_id: Option<u32>) -> bool {
    match (key, key_id) {
        (None, None) => true,
        (Some(k), Some(id)) => (id as int) < execution.strings@.len() && *k == execution.strings@[id as int],
        _ => false,
    }
}

pub open spec fn fields_match(execution: &FullExecution, fields: Seq<(Name, String)>, ids: Seq<(Name, u32)>) -> bool {
    &&& fields.len() == ids.len()
    &&& forall|i: int| 0 <= i < ids.len() ==> fields[i].0 == ids[i].0
        && (ids[i].1 as int) < execution.strings@.len() && fields[i].1 == execution.strings@[ids[i].1 as int]
}

impl Evaluator {
    /// Recognizes a summing reduce whose body is empty and whose value is a
    /// record of item fields.
    pub fn indexed_reduce_projection(
        execution: &FullExecution,
        item_slot: usize,
        body: u32,
        value: u32,
        op: ReduceByOp,
        span: Span,
    ) -> (r: Result<Option<LoweredReduceProjection>, RuntimeError>)
        ensures
            match r {
                Ok(None) => reduce_projection_of(execution, item_slot, body, value, op)
                    == Some(None::<(u32, Seq<(Name, u32)>)>),
                Ok(Some(p)) => reduce_projection_of(execution, item_slot, body, value, op) matches Some(Some(sp))
                    && projection_matches(execution, p, sp),
                Err(e) => reduce_projection_of(execution, item_slot, body, value, op) is None
                    && e@.kind == "indexed-ir"@,
            },
    {
        if op != ReduceByOp::Sum {
            return Ok(None);
        }
        let (_, mut statements) = match execution.block_id(body, BLOCK_STATEMENTS) {
            Ok(x) => x,
            Err(error) => return Err(indexed_error(error, span)),
        };
        if indexed_raw(&mut statements, span)? != 0 {
            return Ok(None);
        }
        indexed_finish(statements, span)?;
        let entries = match Self::indexed_record_fields(execution, value, span)? {
            None => return Ok(None),
            Some(e) => e,
        };
        proof { lemma_record_fields_names(execution, value); }
        let key_text = String::from_str("key");
        let value_text = String::from_str("value");
        let mut key_field: Option<&String> = None;
        let mut value_fields: Option<Vec<(Name, String)>> = None;
        let ghost mut key_id: Option<u32> = None;
        let ghost mut vals_ids: Option<Seq<(Name, u32)>> = None;
        let mut i: usize = 0;
        while i < entries.len()
            invariant
                i <= entries@.len(),
                key_text@ == "key"@,
                value_text@ == "value"@,
                forall|k: int| 0 <= k < entries@.len() ==> (entries@[k].0.id as nat) < execution.strings@.len(),
                reduce_projection_of(execution, item_slot, body, value, op)
                    == reduce_entries(execution, item_slot, entries@, i as nat, key_id, vals_ids),
                key_matches(execution, key_field, key_id),
                match (value_fields, vals_ids) {
                    (None, None) => true,
                    (Some(v), Some(ids)) => fields_match(execution, v@, ids),
                    _ => false,
                },
            decreases entries@.len() - i,
        {
            let (name, expr) = entries[i];
            let text = &execution.strings[name.id as usize];
            if *text == key_text {
                key_field = Self::indexed_field_projection(execution, expr, item_slot, span)?;
                proof {
                    key_id = field_projection_of(execution, expr, item_slot)->0;
                }
            } else if *text == value_text {
                let fields = match Self::indexed_record_fields(execution, expr, span)? {
                    None => return Ok(None),
                    Some(f) => f,
                };
                let mut projected: Vec<(Name, String)> = Vec::new();
                let ghost mut proj_ids: Seq<(Name, u32)> = Seq::empty();
                let mut j: usize = 0;
                #[verifier::loop_isolation(false)]
                while j < fields.len()
                    invariant
                        j <= fields@.len(),
                        reduce_value_fields(execution, item_slot, fields@, 0, Seq::empty())
                            == reduce_value_fields(execution, item_slot, fields@, j as nat, proj_ids),
                        fields_match(execution, projected@, proj_ids),
                    decreases fields@.len() - j,
                {
                    let (fname, fexpr) = fields[j];
                    let source = match Self::indexed_field_projection(execution, fexpr, item_slot, span)? {
                        None => return Ok(None),
                        Some(s) => s,
                    };
                    proof {
                        let sid = field_projection_of(execution, fexpr, item_slot)->0->0;
                        assert(field_projection_of(execution, fexpr, item_slot) == Some(Some(sid)));
                        proj_ids = proj_ids.push((fname, sid));
                    }
                    projected.push((fname, source.clone()));
                    j = j + 1;
                }
                value_fields = Some(projected);
                proof { vals_ids = Some(proj_ids); }
            } else {
                return Ok(None);
            }
            i = i + 1;
        }
        match (key_field, value_fields) {
            (Some(k), Some(v)) => Ok(Some(LoweredReduceProjection { key_field: k.clone(), value_fields: v })),
            _ => Ok(None),
        }
    }
}

} // verus!
