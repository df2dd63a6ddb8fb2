//! The direct evaluator of the indexed IR: it reads instruction payloads in
//! place and runs them, and each function here is proved to compute what the
//! semantics module defines.
use vstd::prelude::*;
use vstd::string::*;
use crate::value::{
    Span, RuntimeError, ErrorModel, err_model, Value, ValueModel, model_list, model_entries, clone_value,
    clone_values, values_equal, record_get, entries_lookup,
};
use crate::ir::{FullProgram, FullTag, BinaryOp, BLOCK_LIST};
use crate::semantics::{
    Flow, StmtEnd, Machine, fault, type_error, list_items, field_value, op_text, combine_error,
    binary_value, entry_position, put_entry, put_entries, insert_sorted, sort_ints, int_items, int_values,
    sorted_values,
};
use crate::evaluator::Evaluator;

verus! {

/// How an expression ended, as a value the evaluator holds.
#[derive(Debug)]
pub enum IndexedFlow {
    Continue(Value),
    Break(Value),
}

impl View for IndexedFlow {
    type V = Flow;

    open spec fn view(&self) -> Flow {
        match self {
            IndexedFlow::Continue(v) => Flow::Next(v@),
            IndexedFlow::Break(v) => Flow::Exit(v@),
        }
    }
}

/// How a statement ended, as a value the evaluator holds.
#[derive(Debug)]
pub enum StmtFlow {
    Done,
    Return(Value),
    Propagate(Value),
    Break,
    Continue,
}

impl View for StmtFlow {
    type V = StmtEnd;

    open spec fn view(&self) -> StmtEnd {
        match self {
            StmtFlow::Done => StmtEnd::Done,
            StmtFlow::Return(v) => StmtEnd::Return(v@),
            StmtFlow::Propagate(v) => StmtEnd::Propagate(v@),
            StmtFlow::Break => StmtEnd::Break,
            StmtFlow::Continue => StmtEnd::Continue,
        }
    }
}

/// The machine a frame's slots and yielded items stand for.
pub open spec fn machine_of(slots: Seq<Value>, yielded: Seq<Value>) -> Machine {
    Machine { slots: model_list(slots), yielded: model_list(yielded) }
}

/// The fault for malformed IR, raised at `cs`.
pub fn fault_error(cs: Span) -> (e: RuntimeError)
    ensures
        e@ == fault(cs),
{
    crate::decode::indexed_error(crate::ir::IrVerifyError::new("malformed instruction"), cs)
}

/// A type error with `message`, raised at `span`.
pub fn type_error_at(message: String, span: Span) -> (e: RuntimeError)
    ensures
        e@ == type_error(message@, span),
{
    RuntimeError::new_owned("type-error", message).with_span(span)
}

/// The tag and words of instruction `id`.
pub fn instruction_at(program: &FullProgram, id: u32) -> (r: Option<(FullTag, &Vec<u32>)>)
    ensures
        match r {
            Some((tag, w)) => (id as int) < program.execution.instructions@.len()
                && tag == program.execution.instructions@[id as int].tag
                && w@ == program.execution.instructions@[id as int].words@,
            None => id as int >= program.execution.instructions@.len(),
        },
{
    if (id as usize) < program.execution.instructions.len() {
        let ins = &program.execution.instructions[id as usize];
        Some((ins.tag, &ins.words))
    } else {
        None
    }
}

/// The words of list block `b`, when its count matches items of `width`
/// words; the items start at index 1.
pub fn list_block_words(program: &FullProgram, b: u32, width: usize) -> (r: Option<&Vec<u32>>)
    requires
        width <= 3,
    ensures
        match r {
            Some(w) => list_items(*program, b, width as nat) == Some(w@.drop_first()) && w@.len() > 0,
            None => list_items(*program, b, width as nat) is None,
        },
{
    if (b as usize) < program.execution.blocks.len() && program.execution.blocks[b as usize].kind == BLOCK_LIST {
        let w = &program.execution.blocks[b as usize].words;
        let n: u64 = if w.len() > 0 { w[0] as u64 } else { 0 };
        let need: u64 = if width == 0 { 0 } else if width == 1 { n } else if width == 2 { n * 2 } else { n * 3 };
        assert(need as int == n as int * width as int) by (nonlinear_arith)
            requires
                width <= 3,
                need == (if width == 0 { 0 } else if width == 1 { n as int } else if width == 2 { n * 2 } else { n * 3 }),
        ;
        if w.len() > 0 && ((w.len() - 1) as u64) == need {
            return Some(w);
        }
    }
    None
}

impl Evaluator {
    /// A field of a record or module held in place, copied out; `None` for
    /// any other value.
    pub fn indexed_borrowed_field_value(&mut self, base: &Value, name: &str, span: Span) -> (r: Result<Option<Value>, RuntimeError>)
        ensures
            *final(self) == *old(self),
            match base@ {
                ValueModel::Record(e) | ValueModel::Module(e) => match entries_lookup(e, name@) {
                    Some(v) => r matches Ok(Some(x)) && x@ == v,
                    None => r matches Err(x) && x@ == err_model("missing-field"@, name@, Some(span)),
                },
                _ => r matches Ok(None),
            },
    {
        match base {
            Value::Record(e) | Value::Module(e) => match record_get(e, name) {
                Some(v) => Ok(Some(clone_value(v))),
                None => Err(RuntimeError::new("missing-field", name).with_span(span)),
            },
            _ => Ok(None),
        }
    }

    /// A field of a value: a record's or module's entry, an error's kind or
    /// message, a regex's pattern, a status's success, kind or segments, or a
    /// process handle's id, command, arguments or detachment.
    pub fn indexed_field_value(&mut self, base: Value, name: &str, span: Span) -> (r: Result<Value, RuntimeError>)
        ensures
            *final(self) == *old(self),
            match field_value(base@, name@, span) {
                Ok(v) => r matches Ok(x) && x@ == v,
                Err(e) => r matches Err(x) && x@ == e,
            },
    {
        if let Some(value) = self.indexed_borrowed_field_value(&base, name, span)? {
            return Ok(value);
        }
        proof {
            reveal_strlit("kind");
            reveal_strlit("message");
            reveal_strlit("pattern");
            reveal_strlit("ok");
            reveal_strlit("success");
            reveal_strlit("segments");
            reveal_strlit("pid");
            reveal_strlit("command");
            reveal_strlit("argv");
            reveal_strlit("detached");
        }
        let missing = RuntimeError::new("missing-field", name).with_span(span);
        match base {
            Value::Error(error) => {
                if crate::text::str_eq(name, "kind") {
                    Ok(Value::Str(error.kind))
                } else if crate::text::str_eq(name, "message") {
                    Ok(Value::Str(error.message))
                } else {
                    Err(missing)
                }
            },
            Value::RunError { kind, message } => {
                if crate::text::str_eq(name, "kind") {
                    Ok(Value::Str(kind))
                } else if crate::text::str_eq(name, "message") {
                    Ok(Value::Str(message))
                } else {
                    Err(missing)
                }
            },
            Value::Regex(pattern) => {
                if crate::text::str_eq(name, "pattern") {
                    Ok(Value::Str(pattern))
                } else {
                    Err(missing)
                }
            },
            Value::Status { success, kind, segments } => {
                if crate::text::str_eq(name, "ok") || crate::text::str_eq(name, "success") {
                    Ok(Value::Bool(success))
                } else if crate::text::str_eq(name, "kind") {
                    Ok(Value::Str(kind))
                } else if crate::text::str_eq(name, "segments") {
                    Ok(Value::List(segments))
                } else {
                    Err(missing)
                }
            },
            Value::ProcessHandle { pid, command, argv, detached } => {
                if crate::text::str_eq(name, "pid") {
                    Ok(Value::Int(pid))
                } else if crate::text::str_eq(name, "command") {
                    Ok(Value::Str(command))
                } else if crate::text::str_eq(name, "argv") {
                    Ok(Value::List(str_values(&argv)))
                } else if crate::text::str_eq(name, "detached") {
                    Ok(Value::Bool(detached))
                } else {
                    Err(missing)
                }
            },
            _ => Err(missing),
        }
    }
}

} // verus!

verus! {

/// The operator's source text.
pub fn op_symbol(op: BinaryOp) -> (r: &'static str)
    ensures
        r@ == op_text(op),
{
    match op {
        BinaryOp::Add => "+",
        BinaryOp::Sub => "-",
        BinaryOp::Mul => "*",
        BinaryOp::Div => "/",
        BinaryOp::Rem => "%",
        BinaryOp::Eq => "==",
        BinaryOp::Ne => "!=",
        BinaryOp::Lt => "<",
        BinaryOp::Le => "<=",
        BinaryOp::Gt => ">",
        BinaryOp::Ge => ">=",
        BinaryOp::And => "&&",
        BinaryOp::Or => "||",
    }
}

/// The error for operands an operator cannot combine.
fn combine_error_at(op: BinaryOp, l: &Value, r: &Value, span: Span) -> (e: RuntimeError)
    ensures
        e@ == combine_error(op, l@, r@, span),
{
    proof {
        reveal_strlit("`");
        reveal_strlit("` cannot combine ");
        reveal_strlit(" and ");
    }
    let mut message = String::from_str("`");
    message.append(op_symbol(op));
    message.append("` cannot combine ");
    message.append(l.type_label());
    message.append(" and ");
    message.append(r.type_label());
    type_error_at(message, span)
}

/// An integer result, or an overflow error where it leaves the `Int` range.
fn int_value(n: i128, span: Span) -> (r: Result<Value, RuntimeError>)
    ensures
        match crate::semantics::int_result(n as int, span) {
            Ok(v) => r matches Ok(x) && x@ == v,
            Err(e) => r matches Err(x) && x@ == e,
        },
{
    if n < i64::MIN as i128 || n > i64::MAX as i128 {
        Err(RuntimeError::new("overflow", "integer overflow").with_span(span))
    } else {
        Ok(Value::Int(n as i64))
    }
}

/// A strict binary operator applied to two values.
pub fn apply_binary(op: BinaryOp, l: Value, r: Value, span: Span) -> (out: Result<Value, RuntimeError>)
    ensures
        match binary_value(op, l@, r@, span) {
            Ok(v) => out matches Ok(x) && x@ == v,
            Err(e) => out matches Err(x) && x@ == e,
        },
{
    match op {
        BinaryOp::Eq => return Ok(Value::Bool(values_equal(&l, &r))),
        BinaryOp::Ne => return Ok(Value::Bool(!values_equal(&l, &r))),
        _ => {},
    }
    match (&l, &r) {
        (Value::Int(a), Value::Int(b)) => {
            let a = *a as i128;
            let b = *b as i128;
            match op {
                BinaryOp::Add => int_value(a + b, span),
                BinaryOp::Sub => int_value(a - b, span),
                BinaryOp::Mul => {
                    assert(-0x8000_0000_0000_0000int * 0x8000_0000_0000_0000 <= a * b <= 0x8000_0000_0000_0000int * 0x8000_0000_0000_0000)
                        by (nonlinear_arith)
                        requires
                            -0x8000_0000_0000_0000 <= a <= 0x8000_0000_0000_0000,
                            -0x8000_0000_0000_0000 <= b <= 0x8000_0000_0000_0000,
                    ;
                    int_value(a * b, span)
                },
                BinaryOp::Div | BinaryOp::Rem => {
                    if b == 0 {
                        return Err(RuntimeError::new("division-by-zero", "division by zero").with_span(span));
                    }
                    let ua: u128 = if a < 0 { (-a) as u128 } else { a as u128 };
                    let ub: u128 = if b < 0 { (-b) as u128 } else { b as u128 };
                    assert(ua / ub <= ua && ua % ub < ub) by (nonlinear_arith)
                        requires
                            ub >= 1,
                    ;
                    if op == BinaryOp::Div {
                        let q = (ua / ub) as i128;
                        let q = if (a < 0) == (b < 0) { q } else { -q };
                        int_value(q, span)
                    } else {
                        let r = (ua % ub) as i128;
                        let r = if a < 0 { -r } else { r };
                        int_value(r, span)
                    }
                },
                BinaryOp::Lt => Ok(Value::Bool(a < b)),
                BinaryOp::Le => Ok(Value::Bool(a <= b)),
                BinaryOp::Gt => Ok(Value::Bool(a > b)),
                BinaryOp::Ge => Ok(Value::Bool(a >= b)),
                _ => Err(combine_error_at(op, &l, &r, span)),
            }
        },
        (Value::Str(a), Value::Str(b)) => {
            if op == BinaryOp::Add {
                let mut s = a.clone();
                s.append(b.as_str());
                Ok(Value::Str(s))
            } else {
                Err(combine_error_at(op, &l, &r, span))
            }
        },
        (Value::List(a), Value::List(b)) => {
            if op == BinaryOp::Add {
                let mut items = clone_values(a);
                let mut rest = clone_values(b);
                items.append(&mut rest);
                assert(model_list(items@) =~= model_list(a@) + model_list(b@));
                Ok(Value::List(items))
            } else {
                Err(combine_error_at(op, &l, &r, span))
            }
        },
        _ => Err(combine_error_at(op, &l, &r, span)),
    }
}

} // verus!

verus! {

/// Inserting before the first element `x` does not exceed is splicing it in
/// at that position.
pub proof fn lemma_insert_sorted_at(s: Seq<i64>, x: i64, pos: int)
    requires
        0 <= pos <= s.len(),
        forall|j: int| 0 <= j < pos ==> s[j] < x,
        pos < s.len() ==> x <= s[pos],
    ensures
        insert_sorted(s, x) == s.take(pos) + seq![x] + s.skip(pos),
    decreases s.len(),
{
    if s.len() == 0 {
        assert(s.take(pos) + seq![x] + s.skip(pos) =~= seq![x]);
    } else if pos == 0 {
        assert(s.take(pos) + seq![x] + s.skip(pos) =~= seq![x] + s);
    } else {
        let t = s.drop_first();
        assert forall|j: int| 0 <= j < pos - 1 implies t[j] < x by {
            assert(t[j] == s[j + 1]);
        }
        lemma_insert_sorted_at(t, x, pos - 1);
        assert(s.take(pos) + seq![x] + s.skip(pos) =~= seq![s[0]] + (t.take(pos - 1) + seq![x] + t.skip(pos - 1)));
    }
}

/// An all-integer list has as many integers as items.
pub proof fn lemma_int_items_len(s: Seq<ValueModel>)
    requires
        int_items(s) is Some,
    ensures
        int_items(s)->0.len() == s.len(),
    decreases s.len(),
{
    if s.len() > 0 {
        lemma_int_items_len(s.drop_last());
    }
}

/// A prefix of an all-integer list is all integers.
pub proof fn lemma_int_items_prefix(s: Seq<ValueModel>, n: int)
    requires
        0 <= n <= s.len(),
        int_items(s) is Some,
    ensures
        int_items(s.take(n)) is Some,
        int_items(s.take(n))->0 == int_items(s)->0.take(n),
    decreases s.len(),
{
    lemma_int_items_len(s);
    if n == s.len() {
        assert(s.take(n) =~= s);
        assert(int_items(s)->0.take(n) =~= int_items(s)->0);
    } else {
        lemma_int_items_prefix(s.drop_last(), n);
        assert(s.drop_last().take(n) =~= s.take(n));
        assert(int_items(s)->0.take(n) =~= int_items(s.drop_last())->0.take(n));
    }
}

/// The integers of an all-integer list, or `None`.
fn int_list(items: &Vec<Value>) -> (r: Option<Vec<i64>>)
    ensures
        match int_items(model_list(items@)) {
            Some(s) => r matches Some(v) && v@ == s,
            None => r is None,
        },
{
    let ghost ml = model_list(items@);
    let mut ints: Vec<i64> = Vec::new();
    let mut i: usize = 0;
    assert(ml.take(0) =~= Seq::<ValueModel>::empty());
    while i < items.len()
        invariant
            i <= items@.len(),
            ml == model_list(items@),
            int_items(ml.take(i as int)) == Some(ints@),
        decreases items@.len() - i,
    {
        proof {
            assert(ml.take(i + 1).drop_last() =~= ml.take(i as int));
            assert(ml.take(i + 1).last() == items@[i as int]@);
        }
        match &items[i] {
            Value::Int(n) => {
                ints.push(*n);
            },
            _ => {
                proof {
                    if int_items(ml) is Some {
                        lemma_int_items_prefix(ml, i + 1);
                    }
                }
                return None;
            },
        }
        i = i + 1;
    }
    assert(ml.take(items@.len() as int) =~= ml);
    Some(ints)
}

/// Integers in ascending order.
fn sort_int_vec(ints: &Vec<i64>) -> (r: Vec<i64>)
    ensures
        r@ == sort_ints(ints@),
{
    let mut sorted: Vec<i64> = Vec::new();
    let mut i: usize = 0;
    assert(ints@.take(0) =~= Seq::<i64>::empty());
    while i < ints.len()
        invariant
            i <= ints@.len(),
            sorted@ == sort_ints(ints@.take(i as int)),
        decreases ints@.len() - i,
    {
        let x = ints[i];
        let mut pos: usize = 0;
        while pos < sorted.len() && sorted[pos] < x
            invariant
                pos <= sorted@.len(),
                forall|j: int| 0 <= j < pos ==> sorted@[j] < x,
            decreases sorted@.len() - pos,
        {
            pos = pos + 1;
        }
        proof {
            lemma_insert_sorted_at(sorted@, x, pos as int);
            assert(ints@.take(i + 1).drop_last() =~= ints@.take(i as int));
        }
        sorted.insert(pos, x);
        assert(sorted@ =~= sort_ints(ints@.take(i + 1)));
        i = i + 1;
    }
    assert(ints@.take(ints@.len() as int) =~= ints@);
    sorted
}

/// The list sorted ascending (descending when `desc`), when all its items
/// are integers.
pub fn sort_int_values(items: &Vec<Value>, desc: bool) -> (r: Option<Vec<Value>>)
    ensures
        match int_items(model_list(items@)) {
            Some(s) => r matches Some(v) && model_list(v@) == sorted_values(s, desc),
            None => r is None,
        },
{
    let ints = match int_list(items) {
        Some(ints) => ints,
        None => return None,
    };
    let sorted = sort_int_vec(&ints);
    let ghost target = if desc { sorted@.reverse() } else { sorted@ };
    let mut out: Vec<Value> = Vec::new();
    let n = sorted.len();
    let mut i: usize = 0;
    while i < n
        invariant
            n == sorted@.len(),
            i <= n,
            target == (if desc { sorted@.reverse() } else { sorted@ }),
            out@.len() == i,
            forall|j: int| 0 <= j < i ==> (#[trigger] out@[j])@ == ValueModel::Int(target[j]),
        decreases n - i,
    {
        let x = if desc { sorted[n - 1 - i] } else { sorted[i] };
        out.push(Value::Int(x));
        i = i + 1;
    }
    assert(model_list(out@) =~= int_values(target));
    Some(out)
}

/// The sum of `s` added from the front, or `None` once a partial sum leaves
/// the `Int` range.
fn sum_ints(s: &Vec<i64>) -> (r: Option<i64>)
    ensures
        match crate::semantics::checked_sum(s@) {
            Some(n) => r == Some(n as i64),
            None => r is None,
        },
{
    let mut acc: i64 = 0;
    let mut i: usize = 0;
    assert(s@.take(0) =~= Seq::<i64>::empty());
    while i < s.len()
        invariant
            i <= s@.len(),
            crate::semantics::checked_sum(s@.take(i as int)) == Some(acc as int),
        decreases s@.len() - i,
    {
        assert(s@.take(i + 1).drop_last() =~= s@.take(i as int));
        let x = s[i];
        let next = acc as i128 + x as i128;
        if next < i64::MIN as i128 || next > i64::MAX as i128 {
            proof { lemma_checked_sum_stays_none(s@, i as int + 1); }
            return None;
        }
        acc = next as i64;
        i = i + 1;
    }
    assert(s@.take(s@.len() as int) =~= s@);
    Some(acc)
}

/// Once a prefix overflows, every longer prefix does too.
proof fn lemma_checked_sum_stays_none(s: Seq<i64>, n: int)
    requires
        0 <= n <= s.len(),
        crate::semantics::checked_sum(s.take(n)) is None,
    ensures
        crate::semantics::checked_sum(s) is None,
    decreases s.len() - n,
{
    if n < s.len() {
        assert(s.take(n + 1).drop_last() =~= s.take(n));
        lemma_checked_sum_stays_none(s, n + 1);
    } else {
        assert(s.take(n) =~= s);
    }
}

/// Whether text `a` comes before text `b` in code-point order.
pub fn text_less(a: &str, b: &str) -> (r: bool)
    ensures
        r == crate::semantics::text_lt(a@, b@),
{
    let n = a.unicode_len();
    let m = b.unicode_len();
    let mut i: usize = 0;
    assert(a@.skip(0) =~= a@);
    assert(b@.skip(0) =~= b@);
    while i < n && i < m
        invariant
            n == a@.len(),
            m == b@.len(),
            i <= n,
            i <= m,
            crate::semantics::text_lt(a@, b@) == crate::semantics::text_lt(a@.skip(i as int), b@.skip(i as int)),
        decreases n - i,
    {
        let x = a.get_char(i);
        let y = b.get_char(i);
        proof {
            assert(a@.skip(i as int)[0] == x);
            assert(b@.skip(i as int)[0] == y);
            assert(a@.skip(i as int).drop_first() =~= a@.skip(i + 1));
            assert(b@.skip(i as int).drop_first() =~= b@.skip(i + 1));
        }
        if x != y {
            return x < y;
        }
        i = i + 1;
    }
    i == n && i < m
}

/// Inserting before the first text that does not come before `x` is
/// splicing it in at that position.
pub proof fn lemma_insert_text_sorted_at(s: Seq<Seq<char>>, x: Seq<char>, pos: int)
    requires
        0 <= pos <= s.len(),
        forall|j: int| 0 <= j < pos ==> crate::semantics::text_lt(#[trigger] s[j], x),
        pos < s.len() ==> !crate::semantics::text_lt(s[pos], x),
    ensures
        crate::semantics::insert_text_sorted(s, x) == s.take(pos) + seq![x] + s.skip(pos),
    decreases s.len(),
{
    if s.len() == 0 {
        assert(s.take(pos) + seq![x] + s.skip(pos) =~= seq![x]);
    } else if pos == 0 {
        assert(s.take(pos) + seq![x] + s.skip(pos) =~= seq![x] + s);
    } else {
        let t = s.drop_first();
        assert forall|j: int| 0 <= j < pos - 1 implies crate::semantics::text_lt(#[trigger] t[j], x) by {
            assert(t[j] == s[j + 1]);
        }
        lemma_insert_text_sorted_at(t, x, pos - 1);
        assert(s.take(pos) + seq![x] + s.skip(pos) =~= seq![s[0]] + (t.take(pos - 1) + seq![x] + t.skip(pos - 1)));
    }
}

/// The texts of an all-text list, or `None`.
fn text_list(items: &Vec<Value>) -> (r: Option<Vec<String>>)
    ensures
        match crate::semantics::text_items(model_list(items@)) {
            Some(s) => r matches Some(v) && crate::value::model_strings(v@) == s,
            None => r is None,
        },
{
    let ghost ml = model_list(items@);
    let mut texts: Vec<String> = Vec::new();
    let mut i: usize = 0;
    assert(ml.take(0) =~= Seq::<ValueModel>::empty());
    assert(crate::value::model_strings(texts@) =~= Seq::<Seq<char>>::empty());
    while i < items.len()
        invariant
            i <= items@.len(),
            ml == model_list(items@),
            crate::semantics::text_items(ml.take(i as int)) == Some(crate::value::model_strings(texts@)),
        decreases items@.len() - i,
    {
        proof {
            assert(ml.take(i + 1).drop_last() =~= ml.take(i as int));
            assert(ml.take(i + 1).last() == items@[i as int]@);
        }
        match &items[i] {
            Value::Str(t) => {
                let ghost before = texts@;
                texts.push(t.clone());
                assert(crate::value::model_strings(texts@) =~= crate::value::model_strings(before).push(t@));
            },
            _ => {
                proof {
                    if crate::semantics::text_items(ml) is Some {
                        lemma_text_items_prefix(ml, i + 1);
                    }
                }
                return None;
            },
        }
        i = i + 1;
    }
    assert(ml.take(items@.len() as int) =~= ml);
    Some(texts)
}

/// An all-text list has as many texts as items.
pub proof fn lemma_text_items_len(s: Seq<ValueModel>)
    requires
        crate::semantics::text_items(s) is Some,
    ensures
        crate::semantics::text_items(s)->0.len() == s.len(),
    decreases s.len(),
{
    if s.len() > 0 {
        lemma_text_items_len(s.drop_last());
    }
}

/// A prefix of an all-text list is all texts.
pub proof fn lemma_text_items_prefix(s: Seq<ValueModel>, n: int)
    requires
        0 <= n <= s.len(),
        crate::semantics::text_items(s) is Some,
    ensures
        crate::semantics::text_items(s.take(n)) is Some,
    decreases s.len(),
{
    lemma_text_items_len(s);
    if n == s.len() {
        assert(s.take(n) =~= s);
    } else {
        lemma_text_items_prefix(s.drop_last(), n);
        assert(s.drop_last().take(n) =~= s.take(n));
    }
}

/// Texts in ascending code-point order.
fn sort_text_vec(texts: &Vec<String>) -> (r: Vec<String>)
    ensures
        crate::value::model_strings(r@) == crate::semantics::sort_texts(crate::value::model_strings(texts@)),
{
    let ghost ts = crate::value::model_strings(texts@);
    let mut sorted: Vec<String> = Vec::new();
    let mut i: usize = 0;
    assert(ts.take(0) =~= Seq::<Seq<char>>::empty());
    assert(crate::value::model_strings(sorted@) =~= Seq::<Seq<char>>::empty());
    while i < texts.len()
        invariant
            i <= texts@.len(),
            ts == crate::value::model_strings(texts@),
            crate::value::model_strings(sorted@) == crate::semantics::sort_texts(ts.take(i as int)),
        decreases texts@.len() - i,
    {
        let ghost ms = crate::value::model_strings(sorted@);
        let x = texts[i].clone();
        let mut pos: usize = 0;
        while pos < sorted.len() && text_less(sorted[pos].as_str(), x.as_str())
            invariant
                pos <= sorted@.len(),
                ms == crate::value::model_strings(sorted@),
                forall|j: int| 0 <= j < pos ==> crate::semantics::text_lt(#[trigger] ms[j], x@),
            decreases sorted@.len() - pos,
        {
            pos = pos + 1;
        }
        proof {
            lemma_insert_text_sorted_at(ms, x@, pos as int);
            assert(ts.take(i + 1).drop_last() =~= ts.take(i as int));
            assert(ts.take(i + 1).last() == x@);
        }
        let ghost xv = x@;
        sorted.insert(pos, x);
        assert(crate::value::model_strings(sorted@) =~= ms.take(pos as int) + seq![xv] + ms.skip(pos as int));
        i = i + 1;
    }
    assert(ts.take(texts@.len() as int) =~= ts);
    sorted
}

/// The list sorted by `sort`: integers numerically, texts by code point,
/// reversed when `desc`; `None` for any other list.
pub fn sort_values(items: &Vec<Value>, desc: bool) -> (r: Option<Vec<Value>>)
    ensures
        match crate::semantics::sort_items(model_list(items@), desc) {
            Some(s) => r matches Some(v) && model_list(v@) == s,
            None => r is None,
        },
{
    if let Some(v) = sort_int_values(items, desc) {
        return Some(v);
    }
    let texts = match text_list(items) {
        Some(t) => t,
        None => return None,
    };
    let sorted = sort_text_vec(&texts);
    let ghost st = crate::value::model_strings(sorted@);
    let ghost target = if desc { st.reverse() } else { st };
    let mut out: Vec<Value> = Vec::new();
    let n = sorted.len();
    let mut i: usize = 0;
    while i < n
        invariant
            n == sorted@.len(),
            i <= n,
            st == crate::value::model_strings(sorted@),
            target == (if desc { st.reverse() } else { st }),
            out@.len() == i,
            forall|j: int| 0 <= j < i ==> (#[trigger] out@[j])@ == ValueModel::Str(target[j]),
        decreases n - i,
    {
        let x = if desc { sorted[n - 1 - i].clone() } else { sorted[i].clone() };
        out.push(Value::Str(x));
        i = i + 1;
    }
    assert(model_list(out@) =~= target.map_values(|x: Seq<char>| ValueModel::Str(x)));
    Some(out)
}

} // verus!

verus! {

/// Sets `key` to `v` in `acc`: in place where an entry of that name exists,
/// at the end otherwise.
pub fn put_record_entry(acc: &mut Vec<(String, Value)>, key: String, v: Value)
    ensures
        model_entries(final(acc)@) == put_entry(model_entries(old(acc)@), key@, v@),
{
    let ghost me = model_entries(acc@);
    let mut i: usize = 0;
    while i < acc.len()
        invariant
            i <= acc@.len(),
            me == model_entries(acc@),
            acc@ == old(acc)@,
            entry_position(me, key@, 0) == entry_position(me, key@, i as int),
        decreases acc@.len() - i,
    {
        if acc[i].0 == key {
            acc.set(i, (key, v));
            assert(model_entries(acc@) =~= me.update(i as int, (key@, v@)));
            return;
        }
        i = i + 1;
    }
    acc.push((key, v));
    assert(model_entries(acc@) =~= me.push((key@, v@)));
}

/// Puts every entry of `src` into `acc` in turn.
pub fn put_record_entries(acc: &mut Vec<(String, Value)>, src: &Vec<(String, Value)>)
    ensures
        model_entries(final(acc)@) == put_entries(model_entries(old(acc)@), model_entries(src@)),
{
    let ghost ms = model_entries(src@);
    let mut i: usize = 0;
    assert(ms.skip(0) =~= ms);
    while i < src.len()
        invariant
            i <= src@.len(),
            ms == model_entries(src@),
            put_entries(model_entries(old(acc)@), ms) == put_entries(model_entries(acc@), ms.skip(i as int)),
        decreases src@.len() - i,
    {
        assert(ms.skip(i as int).drop_first() =~= ms.skip(i + 1));
        put_record_entry(acc, src[i].0.clone(), clone_value(&src[i].1));
        i = i + 1;
    }
}

/// An entry of a record literal: a named field, or a spread of a record.
pub enum FrameRecordEntry {
    Field { name: String },
    Spread,
}

/// What putting a literal entry's value into `acc` gives.
pub open spec fn record_entry_put(
    acc: Seq<(Seq<char>, ValueModel)>,
    entry: FrameRecordEntry,
    v: ValueModel,
    span: Span,
) -> Result<Seq<(Seq<char>, ValueModel)>, ErrorModel> {
    match entry {
        FrameRecordEntry::Field { name } => Ok(put_entry(acc, name@, v)),
        FrameRecordEntry::Spread => match v {
            ValueModel::Record(src) => Ok(put_entries(acc, src)),
            ValueModel::Module(src) => Ok(put_entries(acc, src)),
            _ => Err(type_error("record spread expected Record, found "@ + crate::value::spec_type_name(v), span)),
        },
    }
}

/// Puts the value of a record literal's entry into the fields built so far.
pub fn append_record_entry(
    fields: &mut Vec<(String, Value)>,
    entry: &FrameRecordEntry,
    value: Value,
    span: Span,
) -> (r: Result<(), RuntimeError>)
    ensures
        match record_entry_put(model_entries(old(fields)@), *entry, value@, span) {
            Ok(e) => r is Ok && model_entries(final(fields)@) == e,
            Err(e) => r matches Err(x) && x@ == e,
        },
{
    match entry {
        FrameRecordEntry::Field { name } => {
            put_record_entry(fields, name.clone(), value);
            Ok(())
        },
        FrameRecordEntry::Spread => match value {
            Value::Record(src) | Value::Module(src) => {
                put_record_entries(fields, &src);
                Ok(())
            },
            other => {
                proof { reveal_strlit("record spread expected Record, found "); }
                let mut message = String::from_str("record spread expected Record, found ");
                message.append(other.type_label());
                Err(type_error_at(message, span))
            },
        },
    }
}

} // verus!

verus! {

/// The evaluator state a run keeps: a cache that stays valid for the
/// program, and the traceback as it was.
pub open spec fn kept(before: Evaluator, after: Evaluator, p: FullProgram) -> bool {
    &&& crate::evaluator::cache_valid(after.indexed_function_cache@, p)
    &&& after.call_stack@ == before.call_stack@
}

/// An expression run agrees with the semantics.
pub open spec fn flow_outcome(
    r: Result<IndexedFlow, RuntimeError>,
    s: Result<(Flow, Machine), ErrorModel>,
    slots: Seq<Value>,
    yielded: Seq<Value>,
) -> bool {
    match s {
        Ok((f, m)) => r is Ok && r->Ok_0@ == f && machine_of(slots, yielded) == m,
        Err(e) => r is Err && r->Err_0@ == e,
    }
}

/// A run producing a list, or a propagated value, agrees with the semantics.
pub open spec fn list_outcome(
    r: Result<Result<Vec<Value>, Value>, RuntimeError>,
    s: Result<(Result<Seq<ValueModel>, ValueModel>, Machine), ErrorModel>,
    slots: Seq<Value>,
    yielded: Seq<Value>,
) -> bool {
    match s {
        Ok((Ok(vals), m)) => r matches Ok(Ok(v)) && model_list(v@) == vals && machine_of(slots, yielded) == m,
        Ok((Err(v), m)) => r matches Ok(Err(x)) && x@ == v && machine_of(slots, yielded) == m,
        Err(e) => r is Err && r->Err_0@ == e,
    }
}

/// A run producing record entries, or a propagated value, agrees with the
/// semantics.
pub open spec fn entries_outcome(
    r: Result<Result<Vec<(String, Value)>, Value>, RuntimeError>,
    s: Result<(Result<Seq<(Seq<char>, ValueModel)>, ValueModel>, Machine), ErrorModel>,
    slots: Seq<Value>,
    yielded: Seq<Value>,
) -> bool {
    match s {
        Ok((Ok(vals), m)) => r matches Ok(Ok(v)) && model_entries(v@) == vals && machine_of(slots, yielded) == m,
        Ok((Err(v), m)) => r matches Ok(Err(x)) && x@ == v && machine_of(slots, yielded) == m,
        Err(e) => r is Err && r->Err_0@ == e,
    }
}

/// A run deciding a truth, or propagating a value, agrees with the semantics.
pub open spec fn bool_outcome(
    r: Result<Result<bool, Value>, RuntimeError>,
    s: Result<(Result<bool, ValueModel>, Machine), ErrorModel>,
    slots: Seq<Value>,
    yielded: Seq<Value>,
) -> bool {
    match s {
        Ok((Ok(x), m)) => r == Ok::<Result<bool, Value>, RuntimeError>(Ok(x)) && machine_of(slots, yielded) == m,
        Ok((Err(v), m)) => r matches Ok(Err(x)) && x@ == v && machine_of(slots, yielded) == m,
        Err(e) => r is Err && r->Err_0@ == e,
    }
}

/// A statement run agrees with the semantics.
pub open spec fn stmt_outcome(
    r: Result<StmtFlow, RuntimeError>,
    s: Result<(StmtEnd, Machine), ErrorModel>,
    slots: Seq<Value>,
    yielded: Seq<Value>,
) -> bool {
    match s {
        Ok((end, m)) => r is Ok && r->Ok_0@ == end && machine_of(slots, yielded) == m,
        Err(e) => r is Err && r->Err_0@ == e,
    }
}

/// A run that only changes the machine agrees with the semantics.
pub open spec fn machine_outcome(
    r: Result<(), RuntimeError>,
    s: Result<Machine, ErrorModel>,
    slots: Seq<Value>,
    yielded: Seq<Value>,
) -> bool {
    match s {
        Ok(m) => r is Ok && machine_of(slots, yielded) == m,
        Err(e) => r is Err && r->Err_0@ == e,
    }
}

/// A run producing a value agrees with the semantics.
pub open spec fn value_outcome(r: Result<Value, RuntimeError>, s: Result<ValueModel, ErrorModel>) -> bool {
    match s {
        Ok(v) => r is Ok && r->Ok_0@ == v,
        Err(e) => r is Err && r->Err_0@ == e,
    }
}

/// The integer two words hold, low word first.
pub fn int_from_words(lo: u32, hi: u32) -> (r: i64)
    ensures
        r == crate::decode::i64_of_words(lo, hi) as i64,
{
    let l = lo as i128;
    let h = hi as i128;
    let v: i128 = if hi < 0x8000_0000 {
        h * 0x1_0000_0000 + l
    } else {
        h * 0x1_0000_0000 + l - 0x1_0000_0000_0000_0000
    };
    v as i64
}

/// The span three words at `k` hold.
pub fn span_at(w: &Vec<u32>, k: usize) -> (s: Span)
    requires
        k + 3 <= w@.len(),
    ensures
        s == crate::runs::span_of(w@.skip(k as int)),
{
    let n = w.len();
    assert(k + 3 <= n);
    Span { source: w[k], start: w[k + 1], end: w[k + 2] }
}

/// Binds the fields of `v` named by the (string, slot) pairs that follow
/// the count in `fw` to their slots, in order.
pub fn bind_record_fields(
    program: &FullProgram,
    fw: &Vec<u32>,
    v: &Value,
    slots: &mut Vec<Value>,
    span: Span,
    cs: Span,
) -> (r: Result<(), RuntimeError>)
    requires
        fw@.len() > 0,
    ensures
        match crate::semantics::bind_fields(*program, fw@.drop_first(), 0, v@, model_list(old(slots)@), span, cs) {
            Err(e) => r matches Err(x) && x@ == e,
            Ok(sl) => r is Ok && model_list(final(slots)@) == sl,
        },
{
    let ghost pw = fw@.drop_first();
    let ghost whole = crate::semantics::bind_fields(*program, pw, 0, v@, model_list(slots@), span, cs);
    assert(whole == crate::semantics::bind_fields(*program, fw@.drop_first(), 0, v@, model_list(old(slots)@), span, cs));
    let n: usize = fw.len();
    let pairs: usize = (n - 1) / 2;
    assert(2 * pairs <= pw.len() < 2 * pairs + 2) by (nonlinear_arith)
        requires
            pairs == (fw@.len() - 1) / 2,
            pw.len() == fw@.len() - 1,
    ;
    let mut k: usize = 0;
    while k < pairs
        invariant
            fw@.len() > 0,
            pw == fw@.drop_first(),
            n == fw@.len(),
            pw.len() == fw@.len() - 1,
            2 * pairs <= pw.len() < 2 * pairs + 2,
            k <= pairs,
            whole == crate::semantics::bind_fields(*program, pw, k as nat, v@, model_list(slots@), span, cs),
            whole == crate::semantics::bind_fields(*program, fw@.drop_first(), 0, v@, model_list(old(slots)@), span, cs),
        decreases pairs - k,
    {
        assert(2 * k + 3 <= n);
        let name_id = fw[2 * k + 1];
        let slot = fw[2 * k + 2] as usize;
        assert(pw[2 * k as int] == name_id && pw[(2 * k + 1) as int] == fw@[2 * k + 2]);
        assert(model_list(slots@).len() == slots@.len());
        if name_id as usize >= program.execution.strings.len() || slot >= slots.len() {
            assert(whole == Err::<Seq<ValueModel>, ErrorModel>(fault(cs)));
            return Err(fault_error(cs));
        }
        let name = program.execution.strings[name_id as usize].as_str();
        let found = match v {
            Value::Record(e) => record_get(e, name),
            Value::Module(e) => record_get(e, name),
            _ => None,
        };
        match found {
            None => {
                proof {
                    reveal_strlit("record has no field `");
                    reveal_strlit("`");
                    assert(crate::semantics::record_field(v@, name@) is None);
                    assert(whole == Err::<Seq<ValueModel>, ErrorModel>(crate::semantics::no_field_error(name@, span)));
                }
                let mut message = String::from_str("record has no field `");
                message.append(name);
                message.append("`");
                return Err(RuntimeError::new_owned("field-access", message).with_span(span));
            },
            Some(x) => {
                let x = clone_value(x);
                let ghost before = model_list(slots@);
                slots.set(slot, x);
                assert(model_list(slots@) =~= before.update(slot as int, slots@[slot as int]@));
            },
        }
        k = k + 1;
    }
    Ok(())
}

/// Each string of `a` as a text value.
pub fn str_values(a: &Vec<String>) -> (r: Vec<Value>)
    ensures
        model_list(r@) == crate::value::model_strings(a@).map_values(|s: Seq<char>| ValueModel::Str(s)),
{
    let mut out: Vec<Value> = Vec::new();
    let mut i: usize = 0;
    while i < a.len()
        invariant
            i <= a@.len(),
            out@.len() == i,
            forall|k: int| 0 <= k < i ==> #[trigger] out@[k]@ == ValueModel::Str(a@[k]@),
        decreases a@.len() - i,
    {
        out.push(Value::Str(a[i].clone()));
        i = i + 1;
    }
    assert forall|k: int| 0 <= k < out@.len() implies #[trigger] model_list(out@)[k]
        == crate::value::model_strings(a@).map_values(|s: Seq<char>| ValueModel::Str(s))[k] by {
        assert(crate::value::model_strings(a@)[k] == a@[k]@);
        assert(out@[k]@ == ValueModel::Str(a@[k]@));
    }
    assert(model_list(out@) =~= crate::value::model_strings(a@).map_values(|s: Seq<char>| ValueModel::Str(s)));
    out
}

/// The integers of a range from `a` to `c`: up from `a` to just below `c`,
/// or down from `a` to just above `c`.
pub fn range_list(a: i64, c: i64) -> (r: Vec<Value>)
    ensures
        model_list(r@) == crate::semantics::range_values(a, c),
{
    let mut out: Vec<Value> = Vec::new();
    if a <= c {
        let mut x: i64 = a;
        while x < c
            invariant
                a <= x <= c,
                out@.len() == x - a,
                forall|i: int| 0 <= i < out@.len() ==> #[trigger] out@[i] == Value::Int((a + i) as i64),
            decreases c - x,
        {
            out.push(Value::Int(x));
            x = x + 1;
        }
        assert(model_list(out@) =~= crate::semantics::range_values(a, c));
    } else {
        let mut x: i64 = a;
        while x > c
            invariant
                c <= x <= a,
                out@.len() == a - x,
                forall|i: int| 0 <= i < out@.len() ==> #[trigger] out@[i] == Value::Int((a - i) as i64),
            decreases x - c,
        {
            out.push(Value::Int(x));
            x = x - 1;
        }
        assert(model_list(out@) =~= crate::semantics::range_values(a, c));
    }
    out
}

/// The error for a range whose start is no integer.
pub fn range_start_error_at(v: &Value, span: Span) -> (e: RuntimeError)
    ensures
        e@ == crate::semantics::range_start_error(v@, span),
{
    proof { reveal_strlit("range start expected Int, found "); }
    let mut message = String::from_str("range start expected Int, found ");
    message.append(v.type_label());
    type_error_at(message, span)
}

/// The error for a range whose end is no integer.
pub fn range_end_error_at(v: &Value, span: Span) -> (e: RuntimeError)
    ensures
        e@ == crate::semantics::range_end_error(v@, span),
{
    proof { reveal_strlit("range end expected Int, found "); }
    let mut message = String::from_str("range end expected Int, found ");
    message.append(v.type_label());
    type_error_at(message, span)
}

/// The operator an assignment code denotes: `None` for a plain `=`.
pub fn assign_op_from(code: u32) -> (r: Option<Option<BinaryOp>>)
    ensures
        r == crate::ir::assign_op_of(code),
{
    if code == 0 { Some(None) }
    else if code == 1 { Some(Some(BinaryOp::Add)) }
    else if code == 2 { Some(Some(BinaryOp::Sub)) }
    else if code == 3 { Some(Some(BinaryOp::Mul)) }
    else if code == 4 { Some(Some(BinaryOp::Div)) }
    else if code == 5 { Some(Some(BinaryOp::Rem)) }
    else { None }
}

/// The operator a code denotes.
pub fn binary_op_from(code: u32) -> (r: Option<BinaryOp>)
    ensures
        r == crate::ir::binary_op_of(code),
{
    if code == 0 { Some(BinaryOp::Add) }
    else if code == 1 { Some(BinaryOp::Sub) }
    else if code == 2 { Some(BinaryOp::Mul) }
    else if code == 3 { Some(BinaryOp::Eq) }
    else if code == 4 { Some(BinaryOp::Ne) }
    else if code == 5 { Some(BinaryOp::Lt) }
    else if code == 6 { Some(BinaryOp::Le) }
    else if code == 7 { Some(BinaryOp::Gt) }
    else if code == 8 { Some(BinaryOp::Ge) }
    else if code == 9 { Some(BinaryOp::And) }
    else if code == 10 { Some(BinaryOp::Or) }
    else if code == 11 { Some(BinaryOp::Div) }
    else if code == 12 { Some(BinaryOp::Rem) }
    else { None }
}

impl Evaluator {
    /// The position of the first function named `function` of `kind`,
    /// remembered in the cache after the first search.
    pub fn indexed_function_index(
        &mut self,
        program: &FullProgram,
        function: crate::ir::LoweredFunctionKey,
        kind: crate::ir::LoweredFunctionKind,
    ) -> (r: Option<usize>)
        requires
            crate::evaluator::cache_valid(old(self).indexed_function_cache@, *program),
        ensures
            crate::evaluator::cache_valid(final(self).indexed_function_cache@, *program),
            final(self).call_stack == old(self).call_stack,
            final(self).stream_items == old(self).stream_items,
            match crate::semantics::function_index(*program, function.name.id, kind) {
                Some(i) => r matches Some(x) && x as nat == i && i < program.functions@.len(),
                None => r is None,
            },
    {
        let key: u64 = (function.name.id as u64) * 2 + match kind {
            crate::ir::LoweredFunctionKind::Pure => 0u64,
            crate::ir::LoweredFunctionKind::Proc => 1u64,
        };
        assert(key == crate::evaluator::function_cache_key(function.name.id, kind));
        if let Some(index) = crate::evaluator::fx_cache_get(&self.indexed_function_cache, key) {
            proof { lemma_function_from_bound(*program, function.name.id, kind, 0); }
            return Some(index);
        }
        let mut i: usize = 0;
        while i < program.functions.len()
            invariant
                i <= program.functions@.len(),
                *self == *old(self),
                key == crate::evaluator::function_cache_key(function.name.id, kind),
                crate::evaluator::cache_valid(self.indexed_function_cache@, *program),
                !self.indexed_function_cache@.contains_key(key),
                crate::semantics::function_index(*program, function.name.id, kind)
                    == crate::semantics::function_from(*program, function.name.id, kind, i as nat),
            decreases program.functions@.len() - i,
        {
            if program.functions[i].key.name.id == function.name.id && program.functions[i].kind == kind {
                let ghost old_cache = self.indexed_function_cache@;
                crate::evaluator::fx_cache_insert(&mut self.indexed_function_cache, key, i);
                proof {
                    assert forall|name: u32, k: crate::ir::LoweredFunctionKind|
                        #[trigger] self.indexed_function_cache@.contains_key(crate::evaluator::function_cache_key(name, k))
                        implies crate::semantics::function_index(*program, name, k)
                            == Some(self.indexed_function_cache@[crate::evaluator::function_cache_key(name, k)] as nat) by {
                        if crate::evaluator::function_cache_key(name, k) != key {
                            assert(old_cache.contains_key(crate::evaluator::function_cache_key(name, k)));
                        }
                    }
                }
                return Some(i);
            }
            i = i + 1;
        }
        None
    }
}

/// A function found from `k` on lies in the table.
pub proof fn lemma_function_from_bound(p: FullProgram, name: u32, kind: crate::ir::LoweredFunctionKind, k: nat)
    ensures
        crate::semantics::function_from(p, name, kind, k) matches Some(i) ==> k <= i < p.functions@.len(),
    decreases p.functions@.len() - k,
{
    if k < p.functions@.len() {
        lemma_function_from_bound(p, name, kind, k + 1);
    }
}

} // verus!

verus! {

/// A pipeline's state between stages, as values the evaluator holds.
pub enum PipeItems {
    Items(Vec<Value>),
    Scalar(Value),
}

impl View for PipeItems {
    type V = crate::semantics::PipeState;

    open spec fn view(&self) -> crate::semantics::PipeState {
        match self {
            PipeItems::Items(items) => crate::semantics::PipeState::Items(model_list(items@)),
            PipeItems::Scalar(v) => crate::semantics::PipeState::Scalar(v@),
        }
    }
}

/// A pipeline run agrees with the semantics.
pub open spec fn pipe_outcome(
    r: Result<Result<PipeItems, Value>, RuntimeError>,
    s: Result<(Result<crate::semantics::PipeState, ValueModel>, Machine), ErrorModel>,
    slots: Seq<Value>,
    yielded: Seq<Value>,
) -> bool {
    match s {
        Ok((Ok(st), m)) => r matches Ok(Ok(x)) && x@ == st && machine_of(slots, yielded) == m,
        Ok((Err(v), m)) => r matches Ok(Err(x)) && x@ == v && machine_of(slots, yielded) == m,
        Err(e) => r is Err && r->Err_0@ == e,
    }
}

impl Evaluator {
    /// Evaluates instruction `instruction` in the frame `slots`, with
    /// `budget` calls left of depth.
    pub fn eval_indexed_expr(
        &mut self,
        program: &FullProgram,
        budget: u32,
        instruction: u32,
        slots: &mut Vec<Value>,
        call_span: Span,
    ) -> (r: Result<IndexedFlow, RuntimeError>)
        requires
            crate::evaluator::cache_valid(old(self).indexed_function_cache@, *program),
        ensures
            kept(*old(self), *final(self), *program),
            flow_outcome(r, crate::semantics::ev_expr(*program, budget as nat, instruction,
                machine_of(old(slots)@, old(self).stream_items@), call_span), final(slots)@, final(self).stream_items@),
        decreases budget, instruction, 4nat, 0nat,
    {
        let (tag, w) = match instruction_at(program, instruction) {
            Some(x) => x,
            None => return Err(fault_error(call_span)),
        };
        let strings = &program.execution.strings;
        match tag {
            FullTag::ExprNull => if w.len() == 0 { Ok(IndexedFlow::Continue(Value::Null)) } else { Err(fault_error(call_span)) },
            FullTag::ExprUnit => if w.len() == 0 { Ok(IndexedFlow::Continue(Value::Unit)) } else { Err(fault_error(call_span)) },
            FullTag::ExprEmptyMap => if w.len() == 0 {
                let entries: Vec<(String, Value)> = Vec::new();
                assert(model_entries(entries@) =~= Seq::<(Seq<char>, ValueModel)>::empty());
                Ok(IndexedFlow::Continue(Value::Dict(entries)))
            } else {
                Err(fault_error(call_span))
            },
            FullTag::ExprBool => if w.len() == 1 && w[0] <= 1 {
                Ok(IndexedFlow::Continue(Value::Bool(w[0] == 1)))
            } else {
                Err(fault_error(call_span))
            },
            FullTag::ExprInt => if w.len() == 2 {
                Ok(IndexedFlow::Continue(Value::Int(int_from_words(w[0], w[1]))))
            } else {
                Err(fault_error(call_span))
            },
            FullTag::ExprStr => if w.len() == 1 && (w[0] as usize) < strings.len() {
                Ok(IndexedFlow::Continue(Value::Str(strings[w[0] as usize].clone())))
            } else {
                Err(fault_error(call_span))
            },
            FullTag::ExprParam => if w.len() == 1 && (w[0] as usize) < slots.len() {
                Ok(IndexedFlow::Continue(clone_value(&slots[w[0] as usize])))
            } else {
                Err(fault_error(call_span))
            },
            FullTag::ExprField => {
                if !(w.len() == 5 && w[0] < instruction && (w[1] as usize) < strings.len()) {
                    return Err(fault_error(call_span));
                }
                let base = match self.eval_indexed_expr(program, budget, w[0], slots, call_span)? {
                    IndexedFlow::Continue(v) => v,
                    IndexedFlow::Break(v) => return Ok(IndexedFlow::Break(v)),
                };
                let span = span_at(w, 2);
                let v = self.indexed_field_value(base, strings[w[1] as usize].as_str(), span)?;
                Ok(IndexedFlow::Continue(v))
            },
            FullTag::ExprBinary => {
                if !(w.len() == 6 && w[1] < instruction && w[2] < instruction) {
                    return Err(fault_error(call_span));
                }
                let op = match binary_op_from(w[0]) {
                    Some(op) => op,
                    None => return Err(fault_error(call_span)),
                };
                let span = span_at(w, 3);
                self.eval_indexed_binary(program, budget, instruction, op, w[1], w[2], span, slots, call_span)
            },
            FullTag::ExprNot => {
                if !(w.len() == 4 && w[0] < instruction) {
                    return Err(fault_error(call_span));
                }
                let span = span_at(w, 1);
                match self.eval_indexed_expr(program, budget, w[0], slots, call_span)? {
                    IndexedFlow::Break(v) => Ok(IndexedFlow::Break(v)),
                    IndexedFlow::Continue(Value::Bool(x)) => Ok(IndexedFlow::Continue(Value::Bool(!x))),
                    IndexedFlow::Continue(v) => {
                        proof { reveal_strlit("`!` expected Bool, found "); }
                        let mut message = String::from_str("`!` expected Bool, found ");
                        message.append(v.type_label());
                        Err(type_error_at(message, span))
                    },
                }
            },
            FullTag::ExprTry => {
                if !(w.len() == 4 && w[0] < instruction) {
                    return Err(fault_error(call_span));
                }
                match self.eval_indexed_expr(program, budget, w[0], slots, call_span)? {
                    IndexedFlow::Break(v) => Ok(IndexedFlow::Break(v)),
                    IndexedFlow::Continue(v) => match v {
                        Value::ResultOk(inner) => Ok(IndexedFlow::Continue(*inner)),
                        Value::ResultErr(_) => Ok(IndexedFlow::Break(v)),
                        _ => Err(type_error_at(String::from_str("lowered `?` expected Result"), call_span)),
                    },
                }
            },
            FullTag::ExprList => {
                if w.len() != 1 {
                    return Err(fault_error(call_span));
                }
                let bw = match list_block_words(program, w[0], 1) {
                    Some(bw) => bw,
                    None => return Err(fault_error(call_span)),
                };
                match self.eval_indexed_list(program, budget, instruction, bw, slots, call_span)? {
                    Ok(vals) => Ok(IndexedFlow::Continue(Value::List(vals))),
                    Err(v) => Ok(IndexedFlow::Break(v)),
                }
            },
            FullTag::ExprRecord => {
                if w.len() != 1 {
                    return Err(fault_error(call_span));
                }
                let bw = match list_block_words(program, w[0], 3) {
                    Some(bw) => bw,
                    None => return Err(fault_error(call_span)),
                };
                match self.eval_indexed_record(program, budget, instruction, bw, slots, call_span)? {
                    Ok(entries) => Ok(IndexedFlow::Continue(Value::Record(entries))),
                    Err(v) => Ok(IndexedFlow::Break(v)),
                }
            },
            FullTag::ExprCall => {
                if !(w.len() == 5 && (w[0] as usize) < strings.len()) {
                    return Err(fault_error(call_span));
                }
                let bw = match list_block_words(program, w[1], 2) {
                    Some(bw) => bw,
                    None => return Err(fault_error(call_span)),
                };
                let span = span_at(w, 2);
                let args = match self.eval_indexed_args(program, budget, instruction, bw, slots, call_span)? {
                    Ok(args) => args,
                    Err(v) => return Ok(IndexedFlow::Break(v)),
                };
                let key = crate::ir::LoweredFunctionKey { name: crate::ir::Name { id: w[0] } };
                let v = self.eval_indexed_named_call(program, budget, key, args, span)?;
                Ok(IndexedFlow::Continue(v))
            },
            FullTag::ExprPipeline => {
                if !(w.len() == 5 && w[0] < instruction) {
                    return Err(fault_error(call_span));
                }
                let bw = match list_block_words(program, w[1], 1) {
                    Some(bw) => bw,
                    None => return Err(fault_error(call_span)),
                };
                let span = span_at(w, 2);
                let input = match self.eval_indexed_expr(program, budget, w[0], slots, call_span)? {
                    IndexedFlow::Continue(v) => v,
                    IndexedFlow::Break(v) => return Ok(IndexedFlow::Break(v)),
                };
                match input {
                    Value::List(items) => {
                        match self.eval_indexed_stages(program, budget, instruction, bw, PipeItems::Items(items), slots, call_span, span)? {
                            Ok(PipeItems::Items(items)) => Ok(IndexedFlow::Continue(Value::List(items))),
                            Ok(PipeItems::Scalar(v)) => Ok(IndexedFlow::Continue(v)),
                            Err(v) => Ok(IndexedFlow::Break(v)),
                        }
                    },
                    other => {
                        proof { reveal_strlit("pipeline expected List, found "); }
                        let mut message = String::from_str("pipeline expected List, found ");
                        message.append(other.type_label());
                        Err(type_error_at(message, span))
                    },
                }
            },
            FullTag::ExprOk | FullTag::ExprErr => {
                if !(w.len() == 1 && w[0] < instruction) {
                    return Err(fault_error(call_span));
                }
                match self.eval_indexed_expr(program, budget, w[0], slots, call_span)? {
                    IndexedFlow::Break(v) => Ok(IndexedFlow::Break(v)),
                    IndexedFlow::Continue(v) => if tag == FullTag::ExprOk {
                        Ok(IndexedFlow::Continue(Value::ResultOk(Box::new(v))))
                    } else {
                        Ok(IndexedFlow::Continue(Value::ResultErr(Box::new(v))))
                    },
                }
            },
            FullTag::ExprResultFallback => {
                if !(w.len() == 2 && w[0] < instruction && w[1] < instruction) {
                    return Err(fault_error(call_span));
                }
                let right = w[1];
                match self.eval_indexed_expr(program, budget, w[0], slots, call_span)? {
                    IndexedFlow::Break(v) => Ok(IndexedFlow::Break(v)),
                    IndexedFlow::Continue(v) => match v {
                        Value::ResultOk(inner) => Ok(IndexedFlow::Continue(*inner)),
                        Value::ResultErr(_) | Value::Null => self.eval_indexed_expr(program, budget, right, slots, call_span),
                        _ => Ok(IndexedFlow::Continue(v)),
                    },
                }
            },
            FullTag::ExprIf => {
                if !(w.len() == 5 && w[1] < instruction) {
                    return Err(fault_error(call_span));
                }
                let bw = match list_block_words(program, w[0], 2) {
                    Some(bw) => bw,
                    None => return Err(fault_error(call_span)),
                };
                let span = span_at(w, 2);
                self.eval_indexed_if(program, budget, instruction, bw, w[1], span, slots, call_span)
            },
            FullTag::ExprTag => {
                if !(w.len() == 2 && (w[0] as usize) < strings.len()) {
                    return Err(fault_error(call_span));
                }
                let bw = match list_block_words(program, w[1], 1) {
                    Some(bw) => bw,
                    None => return Err(fault_error(call_span)),
                };
                match self.eval_indexed_list(program, budget, instruction, bw, slots, call_span)? {
                    Ok(vals) => Ok(IndexedFlow::Continue(Value::Tag { name: strings[w[0] as usize].clone(), fields: vals })),
                    Err(v) => Ok(IndexedFlow::Break(v)),
                }
            },
            FullTag::ExprRange => {
                if !(w.len() == 5 && w[0] < instruction && w[1] < instruction) {
                    return Err(fault_error(call_span));
                }
                let span = span_at(w, 2);
                let a = match self.eval_indexed_expr(program, budget, w[0], slots, call_span)? {
                    IndexedFlow::Break(x) => return Ok(IndexedFlow::Break(x)),
                    IndexedFlow::Continue(Value::Int(a)) => a,
                    IndexedFlow::Continue(x) => return Err(range_start_error_at(&x, span)),
                };
                match self.eval_indexed_expr(program, budget, w[1], slots, call_span)? {
                    IndexedFlow::Break(x) => Ok(IndexedFlow::Break(x)),
                    IndexedFlow::Continue(Value::Int(c)) => Ok(IndexedFlow::Continue(Value::List(range_list(a, c)))),
                    IndexedFlow::Continue(x) => Err(range_end_error_at(&x, span)),
                }
            },
            _ => Err(fault_error(call_span)),
        }
    }

    /// An `if` expression: the first branch of `bw` whose condition holds
    /// gives the value, else `else_value` does.
    pub fn eval_indexed_if(
        &mut self,
        program: &FullProgram,
        budget: u32,
        instruction: u32,
        bw: &Vec<u32>,
        else_value: u32,
        span: Span,
        slots: &mut Vec<Value>,
        call_span: Span,
    ) -> (r: Result<IndexedFlow, RuntimeError>)
        requires
            crate::evaluator::cache_valid(old(self).indexed_function_cache@, *program),
            bw@.len() > 0,
        ensures
            kept(*old(self), *final(self), *program),
            flow_outcome(r, crate::semantics::ev_if(*program, budget as nat, instruction, bw@.drop_first(), 0, else_value, span,
                machine_of(old(slots)@, old(self).stream_items@), call_span), final(slots)@, final(self).stream_items@),
        decreases budget, instruction, 3nat, 0nat,
    {
        let ghost pw = bw@.drop_first();
        let ghost start = crate::semantics::ev_if(*program, budget as nat, instruction, pw, 0, else_value, span,
            machine_of(slots@, self.stream_items@), call_span);
        let n = bw.len() - 1;
        let mut k: usize = 0;
        while n - k >= 2
            invariant
                start == crate::semantics::ev_if(*program, budget as nat, instruction, pw, 0, else_value, span,
                    machine_of(old(slots)@, old(self).stream_items@), call_span),
                n == bw@.len() - 1,
                pw == bw@.drop_first(),
                k <= n,
                k % 2 == 0,
                kept(*old(self), *self, *program),
                start == crate::semantics::ev_if(*program, budget as nat, instruction, pw, (k / 2) as nat, else_value, span,
                    machine_of(slots@, self.stream_items@), call_span),
            decreases n - k,
        {
            let c = bw[k + 1];
            let v = bw[k + 2];
            if c >= instruction || v >= instruction {
                return Err(fault_error(call_span));
            }
            match self.eval_indexed_expr(program, budget, c, slots, call_span)? {
                IndexedFlow::Break(x) => return Ok(IndexedFlow::Break(x)),
                IndexedFlow::Continue(x) => {
                    if frame_condition_bool(x, span)? {
                        return self.eval_indexed_expr(program, budget, v, slots, call_span);
                    }
                },
            }
            k = k + 2;
        }
        if else_value >= instruction {
            return Err(fault_error(call_span));
        }
        self.eval_indexed_expr(program, budget, else_value, slots, call_span)
    }
}

} // verus!

verus! {

impl Evaluator {
    /// A binary expression; `&&` and `||` evaluate their right operand only
    /// when the left one does not decide.
    pub fn eval_indexed_binary(
        &mut self,
        program: &FullProgram,
        budget: u32,
        instruction: u32,
        op: BinaryOp,
        left: u32,
        right: u32,
        span: Span,
        slots: &mut Vec<Value>,
        call_span: Span,
    ) -> (r: Result<IndexedFlow, RuntimeError>)
        requires
            crate::evaluator::cache_valid(old(self).indexed_function_cache@, *program),
        ensures
            kept(*old(self), *final(self), *program),
            flow_outcome(r, crate::semantics::ev_binary(*program, budget as nat, instruction, op, left, right, span,
                machine_of(old(slots)@, old(self).stream_items@), call_span), final(slots)@, final(self).stream_items@),
        decreases budget, instruction, 3nat, 0nat,
    {
        if left >= instruction || right >= instruction {
            return Err(fault_error(call_span));
        }
        let lv = match self.eval_indexed_expr(program, budget, left, slots, call_span)? {
            IndexedFlow::Continue(v) => v,
            IndexedFlow::Break(v) => return Ok(IndexedFlow::Break(v)),
        };
        if op == BinaryOp::And || op == BinaryOp::Or {
            proof {
                reveal_strlit("`");
                reveal_strlit("` expected Bool, found ");
            }
            match lv {
                Value::Bool(x) => {
                    if (op == BinaryOp::And && !x) || (op == BinaryOp::Or && x) {
                        return Ok(IndexedFlow::Continue(Value::Bool(x)));
                    }
                    match self.eval_indexed_expr(program, budget, right, slots, call_span)? {
                        IndexedFlow::Break(v) => Ok(IndexedFlow::Break(v)),
                        IndexedFlow::Continue(Value::Bool(y)) => Ok(IndexedFlow::Continue(Value::Bool(y))),
                        IndexedFlow::Continue(rv) => {
                            let mut message = String::from_str("`");
                            message.append(op_symbol(op));
                            message.append("` expected Bool, found ");
                            message.append(rv.type_label());
                            Err(type_error_at(message, span))
                        },
                    }
                },
                _ => {
                    let mut message = String::from_str("`");
                    message.append(op_symbol(op));
                    message.append("` expected Bool, found ");
                    message.append(lv.type_label());
                    Err(type_error_at(message, span))
                },
            }
        } else {
            let rv = match self.eval_indexed_expr(program, budget, right, slots, call_span)? {
                IndexedFlow::Continue(v) => v,
                IndexedFlow::Break(v) => return Ok(IndexedFlow::Break(v)),
            };
            let v = apply_binary(op, lv, rv, span)?;
            Ok(IndexedFlow::Continue(v))
        }
    }

    /// The values of a list literal's elements, the item words of `bw`.
    pub fn eval_indexed_list(
        &mut self,
        program: &FullProgram,
        budget: u32,
        instruction: u32,
        bw: &Vec<u32>,
        slots: &mut Vec<Value>,
        call_span: Span,
    ) -> (r: Result<Result<Vec<Value>, Value>, RuntimeError>)
        requires
            crate::evaluator::cache_valid(old(self).indexed_function_cache@, *program),
            bw@.len() > 0,
        ensures
            kept(*old(self), *final(self), *program),
            list_outcome(r, crate::semantics::ev_list(*program, budget as nat, instruction, bw@.drop_first(), 0, Seq::empty(),
                machine_of(old(slots)@, old(self).stream_items@), call_span), final(slots)@, final(self).stream_items@),
        decreases budget, instruction, 3nat, 0nat,
    {
        let ghost ids = bw@.drop_first();
        let ghost start = crate::semantics::ev_list(*program, budget as nat, instruction, ids, 0, Seq::empty(),
            machine_of(slots@, self.stream_items@), call_span);
        let n = bw.len() - 1;
        let mut acc: Vec<Value> = Vec::new();
        assert(model_list(acc@) =~= Seq::<ValueModel>::empty());
        let mut k: usize = 0;
        while k < n
            invariant
                start == crate::semantics::ev_list(*program, budget as nat, instruction, ids, 0, Seq::empty(),
            machine_of(old(slots)@, old(self).stream_items@), call_span),
                n == bw@.len() - 1,
                ids == bw@.drop_first(),
                k <= n,
                kept(*old(self), *self, *program),
                start == crate::semantics::ev_list(*program, budget as nat, instruction, ids, k as nat, model_list(acc@),
                    machine_of(slots@, self.stream_items@), call_span),
            decreases n - k,
        {
            let e = bw[k + 1];
            if e >= instruction {
                return Err(fault_error(call_span));
            }
            match self.eval_indexed_expr(program, budget, e, slots, call_span)? {
                IndexedFlow::Break(v) => return Ok(Err(v)),
                IndexedFlow::Continue(v) => {
                    let ghost before = model_list(acc@);
                    acc.push(v);
                    assert(model_list(acc@) =~= before.push(acc@.last()@));
                },
            }
            k = k + 1;
        }
        Ok(Ok(acc))
    }

    /// The values of a call's arguments, the (mode, instruction) pairs of `bw`.
    pub fn eval_indexed_args(
        &mut self,
        program: &FullProgram,
        budget: u32,
        instruction: u32,
        bw: &Vec<u32>,
        slots: &mut Vec<Value>,
        call_span: Span,
    ) -> (r: Result<Result<Vec<Value>, Value>, RuntimeError>)
        requires
            crate::evaluator::cache_valid(old(self).indexed_function_cache@, *program),
            bw@.len() > 0,
        ensures
            kept(*old(self), *final(self), *program),
            list_outcome(r, crate::semantics::ev_args(*program, budget as nat, instruction, bw@.drop_first(), 0, Seq::empty(),
                machine_of(old(slots)@, old(self).stream_items@), call_span), final(slots)@, final(self).stream_items@),
        decreases budget, instruction, 3nat, 0nat,
    {
        let ghost w = bw@.drop_first();
        let ghost start = crate::semantics::ev_args(*program, budget as nat, instruction, w, 0, Seq::empty(),
            machine_of(slots@, self.stream_items@), call_span);
        let n = (bw.len() - 1) / 2;
        let mut acc: Vec<Value> = Vec::new();
        assert(model_list(acc@) =~= Seq::<ValueModel>::empty());
        let mut k: usize = 0;
        while k < n
            invariant
                start == crate::semantics::ev_args(*program, budget as nat, instruction, w, 0, Seq::empty(),
            machine_of(old(slots)@, old(self).stream_items@), call_span),
                n == (bw@.len() - 1) / 2,
                bw@.len() <= usize::MAX,
                w == bw@.drop_first(),
                k <= n,
                kept(*old(self), *self, *program),
                start == crate::semantics::ev_args(*program, budget as nat, instruction, w, k as nat, model_list(acc@),
                    machine_of(slots@, self.stream_items@), call_span),
            decreases n - k,
        {
            assert(2 * k + 2 <= bw@.len() - 1) by (nonlinear_arith)
                requires
                    k < n,
                    n == (bw@.len() - 1) / 2,
            ;
            let mode = bw[2 * k + 1];
            let e = bw[2 * k + 2];
            if mode != 0 || e >= instruction {
                return Err(fault_error(call_span));
            }
            match self.eval_indexed_expr(program, budget, e, slots, call_span)? {
                IndexedFlow::Break(v) => return Ok(Err(v)),
                IndexedFlow::Continue(v) => {
                    let ghost before = model_list(acc@);
                    acc.push(v);
                    assert(model_list(acc@) =~= before.push(acc@.last()@));
                },
            }
            k = k + 1;
        }
        Ok(Ok(acc))
    }

    /// The entries of a record literal, the (spread, name, instruction)
    /// triples of `bw`.
    pub fn eval_indexed_record(
        &mut self,
        program: &FullProgram,
        budget: u32,
        instruction: u32,
        bw: &Vec<u32>,
        slots: &mut Vec<Value>,
        call_span: Span,
    ) -> (r: Result<Result<Vec<(String, Value)>, Value>, RuntimeError>)
        requires
            crate::evaluator::cache_valid(old(self).indexed_function_cache@, *program),
            bw@.len() > 0,
        ensures
            kept(*old(self), *final(self), *program),
            entries_outcome(r, crate::semantics::ev_record(*program, budget as nat, instruction, bw@.drop_first(), 0, Seq::empty(),
                machine_of(old(slots)@, old(self).stream_items@), call_span), final(slots)@, final(self).stream_items@),
        decreases budget, instruction, 3nat, 0nat,
    {
        let ghost w = bw@.drop_first();
        let ghost start = crate::semantics::ev_record(*program, budget as nat, instruction, w, 0, Seq::empty(),
            machine_of(slots@, self.stream_items@), call_span);
        let n = (bw.len() - 1) / 3;
        let mut acc: Vec<(String, Value)> = Vec::new();
        assert(model_entries(acc@) =~= Seq::<(Seq<char>, ValueModel)>::empty());
        let mut k: usize = 0;
        while k < n
            invariant
                start == crate::semantics::ev_record(*program, budget as nat, instruction, w, 0, Seq::empty(),
            machine_of(old(slots)@, old(self).stream_items@), call_span),
                n == (bw@.len() - 1) / 3,
                bw@.len() <= usize::MAX,
                w == bw@.drop_first(),
                k <= n,
                kept(*old(self), *self, *program),
                start == crate::semantics::ev_record(*program, budget as nat, instruction, w, k as nat, model_entries(acc@),
                    machine_of(slots@, self.stream_items@), call_span),
            decreases n - k,
        {
            assert(3 * k + 3 <= bw@.len() - 1) by (nonlinear_arith)
                requires
                    k < n,
                    n == (bw@.len() - 1) / 3,
            ;
            let spread = bw[3 * k + 1];
            let name = bw[3 * k + 2];
            let e = bw[3 * k + 3];
            if e >= instruction || spread > 1 || (spread == 0 && (name as usize) >= program.execution.strings.len()) {
                return Err(fault_error(call_span));
            }
            let v = match self.eval_indexed_expr(program, budget, e, slots, call_span)? {
                IndexedFlow::Break(v) => return Ok(Err(v)),
                IndexedFlow::Continue(v) => v,
            };
            let entry = if spread == 0 {
                FrameRecordEntry::Field { name: program.execution.strings[name as usize].clone() }
            } else {
                FrameRecordEntry::Spread
            };
            append_record_entry(&mut acc, &entry, v, call_span)?;
            k = k + 1;
        }
        Ok(Ok(acc))
    }
}

} // verus!

verus! {

/// The words of statement block `b`, whose statements start at index 1.
pub fn statement_block_words(program: &FullProgram, b: u32) -> (r: Option<&Vec<u32>>)
    ensures
        match r {
            Some(w) => crate::blocks::statement_block_of(&program.execution, b) == Some(w@.drop_first()) && w@.len() > 0,
            None => crate::blocks::statement_block_of(&program.execution, b) is None,
        },
{
    if (b as usize) < program.execution.blocks.len()
        && program.execution.blocks[b as usize].kind == crate::ir::BLOCK_STATEMENTS {
        let w = &program.execution.blocks[b as usize].words;
        if w.len() > 0 && ((w.len() - 1) as u64) == (w[0] as u64) {
            return Some(w);
        }
    }
    None
}

/// The declared type's name.
pub fn type_name_text(kind: crate::ir::LoweredType) -> (r: &'static str)
    ensures
        r@ == crate::semantics::type_text(kind),
{
    match kind {
        crate::ir::LoweredType::Any => "Any",
        crate::ir::LoweredType::Unit => "Unit",
        crate::ir::LoweredType::Bool => "Bool",
        crate::ir::LoweredType::Int => "Int",
        crate::ir::LoweredType::Str => "Str",
        crate::ir::LoweredType::List => "List",
        crate::ir::LoweredType::Stream => "Stream",
    }
}

/// What a function gives back once its body has ended with `end`, having
/// yielded `yielded`.
pub fn indexed_function_result(
    kind: crate::ir::LoweredType,
    end: StmtFlow,
    yielded: Vec<Value>,
    span: Span,
) -> (r: Result<Value, RuntimeError>)
    ensures
        value_outcome(r, crate::semantics::function_result(kind, end@, model_list(yielded@), span)),
{
    proof {
        reveal_strlit("stream producer returned ");
        reveal_strlit("expected ");
        reveal_strlit(" return value, found ");
    }
    let is_stream = match kind {
        crate::ir::LoweredType::Stream => true,
        _ => false,
    };
    match end {
        StmtFlow::Break => Err(RuntimeError::new("control-flow", "break outside loop").with_span(span)),
        StmtFlow::Continue => Err(RuntimeError::new("control-flow", "continue outside loop").with_span(span)),
        StmtFlow::Propagate(v) => Ok(v),
        StmtFlow::Done => if is_stream {
            Ok(Value::Stream(Box::new(crate::value::StreamValue { items: yielded, source: None })))
        } else {
            Err(RuntimeError::new("return", "lowered function did not return").with_span(span))
        },
        StmtFlow::Return(v) => if is_stream {
            match v {
                Value::Stream(_) => Ok(v),
                Value::Unit => Ok(Value::Stream(Box::new(crate::value::StreamValue { items: yielded, source: None }))),
                _ => {
                    let mut message = String::from_str("stream producer returned ");
                    message.append(v.type_label());
                    Err(type_error_at(message, span))
                },
            }
        } else {
            let ok = match kind {
                crate::ir::LoweredType::Any => true,
                crate::ir::LoweredType::Unit => matches!(v, Value::Unit),
                crate::ir::LoweredType::Bool => matches!(v, Value::Bool(..)),
                crate::ir::LoweredType::Int => matches!(v, Value::Int(..)),
                crate::ir::LoweredType::Str => matches!(v, Value::Str(..)),
                crate::ir::LoweredType::List => matches!(v, Value::List(..)),
                crate::ir::LoweredType::Stream => matches!(v, Value::Stream(..)),
            };
            if ok {
                Ok(v)
            } else {
                let mut message = String::from_str("expected ");
                message.append(type_name_text(kind));
                message.append(" return value, found ");
                message.append(v.type_label());
                Err(type_error_at(message, span))
            }
        },
    }
}

impl Evaluator {
    /// Calls the function `function` names, a pure one before a procedure,
    /// with `budget` calls of depth left.
    #[verifier::rlimit(50)]
    pub fn eval_indexed_named_call(
        &mut self,
        program: &FullProgram,
        budget: u32,
        function: crate::ir::LoweredFunctionKey,
        args: Vec<Value>,
        call_span: Span,
    ) -> (r: Result<Value, RuntimeError>)
        requires
            crate::evaluator::cache_valid(old(self).indexed_function_cache@, *program),
            (function.name.id as int) < program.execution.strings@.len(),
        ensures
            kept(*old(self), *final(self), *program),
            final(self).stream_items == old(self).stream_items,
            value_outcome(r, crate::semantics::named_call(*program, budget as nat, function.name.id, model_list(args@), call_span)),
        decreases budget, 0nat, 0nat, 0nat,
    {
        let (kind, index) = match self.indexed_function_index(program, function, crate::ir::LoweredFunctionKind::Pure) {
            Some(i) => (crate::ir::LoweredFunctionKind::Pure, i),
            None => match self.indexed_function_index(program, function, crate::ir::LoweredFunctionKind::Proc) {
                Some(i) => (crate::ir::LoweredFunctionKind::Proc, i),
                None => {
                    let name = program.execution.strings[function.name.id as usize].clone();
                    return Err(RuntimeError::new_owned("unresolved-lowered-call", name).with_span(call_span));
                },
            },
        };
        assert(crate::semantics::named_function(*program, function.name.id) == Some(index as nat));
        if budget == 0 {
            return Err(RuntimeError::new("stack-overflow", "indexed evaluation is nested too deeply").with_span(call_span));
        }
        let r = self.eval_indexed_call_frame(program, budget - 1, function, kind, index, args, call_span);
        assert(crate::semantics::named_call(*program, budget as nat, function.name.id, model_list(args@), call_span)
            == crate::semantics::ev_function(*program, (budget - 1) as nat, index as nat, model_list(args@), call_span));
        r
    }

    /// Runs function `index` in a frame of its own: the traceback names it
    /// while it runs, and the caller's yielded items are kept aside.
    #[verifier::rlimit(50)]
    pub fn eval_indexed_call_frame(
        &mut self,
        program: &FullProgram,
        budget: u32,
        function: crate::ir::LoweredFunctionKey,
        kind: crate::ir::LoweredFunctionKind,
        index: usize,
        args: Vec<Value>,
        call_span: Span,
    ) -> (r: Result<Value, RuntimeError>)
        requires
            crate::evaluator::cache_valid(old(self).indexed_function_cache@, *program),
        ensures
            kept(*old(self), *final(self), *program),
            final(self).stream_items == old(self).stream_items,
            value_outcome(r, crate::semantics::ev_function(*program, budget as nat, index as nat, model_list(args@), call_span)),
        decreases budget, program.execution.instructions@.len() + 2, 0nat, 0nat,
    {
        self.call_stack.push(crate::evaluator::TracebackFrame {
            function,
            kind,
            definition_span: None,
            call_span: Some(call_span),
        });
        let mut saved: Vec<Value> = Vec::new();
        std::mem::swap(&mut saved, &mut self.stream_items);
        let result = self.eval_indexed_function(program, budget, index, args, call_span);
        self.stream_items = saved;
        self.call_stack.pop();
        assert(self.call_stack@ =~= old(self).call_stack@);
        result
    }

    /// Binds `args` to a fresh frame of function `f` and runs its body.
    pub fn eval_indexed_function(
        &mut self,
        program: &FullProgram,
        budget: u32,
        f: usize,
        args: Vec<Value>,
        call_span: Span,
    ) -> (r: Result<Value, RuntimeError>)
        requires
            crate::evaluator::cache_valid(old(self).indexed_function_cache@, *program),
        ensures
            kept(*old(self), *final(self), *program),
            value_outcome(r, crate::semantics::ev_function(*program, budget as nat, f as nat, model_list(args@), call_span)),
        decreases budget, program.execution.instructions@.len() + 1, 0nat, 0nat,
    {
        if f >= program.functions.len() {
            return Err(fault_error(call_span));
        }
        let h = program.functions[f].header;
        if args.len() != h.param_count {
            proof {
                reveal_strlit("expected ");
                reveal_strlit(" arguments, found ");
            }
            let mut message = String::from_str("expected ");
            crate::text::push_decimal(&mut message, h.param_count as u64);
            message.append(" arguments, found ");
            crate::text::push_decimal(&mut message, args.len() as u64);
            return Err(RuntimeError::new_owned("arity", message).with_span(call_span));
        }
        if h.slot_count < h.param_count {
            return Err(fault_error(call_span));
        }
        let bw = match statement_block_words(program, program.functions[f].body) {
            Some(bw) => bw,
            None => return Err(fault_error(call_span)),
        };
        let ghost arg_models = model_list(args@);
        let mut slots = args;
        while slots.len() < h.slot_count
            invariant
                slots@.len() <= h.slot_count,
                arg_models.len() == h.param_count,
                model_list(slots@) == arg_models + Seq::new((slots@.len() - arg_models.len()) as nat, |i: int| ValueModel::Unit),
            decreases h.slot_count - slots@.len(),
        {
            let ghost before = model_list(slots@);
            slots.push(Value::Unit);
            assert(model_list(slots@) =~= before.push(ValueModel::Unit));
            assert(model_list(slots@) =~= arg_models + Seq::new((slots@.len() - arg_models.len()) as nat, |i: int| ValueModel::Unit));
        }
        assert(model_list(slots@) == crate::semantics::bind_slots(arg_models, h.slot_count as nat));
        self.stream_items = Vec::new();
        assert(model_list(self.stream_items@) =~= Seq::<ValueModel>::empty());
        let end = self.eval_indexed_stmts(program, budget, program.execution.instructions.len(), bw, &mut slots, call_span, h.return_kind == crate::ir::LoweredType::Stream)?;
        let mut yielded: Vec<Value> = Vec::new();
        std::mem::swap(&mut yielded, &mut self.stream_items);
        indexed_function_result(h.return_kind, end, yielded, call_span)
    }
}

} // verus!

verus! {

/// The truth a condition value stands for: a boolean, or a status's success.
pub fn frame_condition_bool(value: Value, span: Span) -> (r: Result<bool, RuntimeError>)
    ensures
        match crate::semantics::condition_of(value@) {
            Some(b) => r == Ok::<bool, RuntimeError>(b),
            None => r matches Err(e) && e@ == crate::semantics::expected_bool(span),
        },
{
    match value {
        Value::Bool(b) => Ok(b),
        Value::Status { success, .. } => Ok(success),
        _ => Err(RuntimeError::new("type-error", "lowered expression expected Bool").with_span(span)),
    }
}

impl Evaluator {
    /// Runs the expressions deferred so far, last first.
    pub fn run_indexed_defers(
        &mut self,
        program: &FullProgram,
        budget: u32,
        bound: usize,
        defers: &Vec<u32>,
        slots: &mut Vec<Value>,
        call_span: Span,
    ) -> (r: Result<(), RuntimeError>)
        requires
            crate::evaluator::cache_valid(old(self).indexed_function_cache@, *program),
        ensures
            kept(*old(self), *final(self), *program),
            machine_outcome(r, crate::semantics::ev_defers(*program, budget as nat, bound as nat, defers@, defers@.len(),
                machine_of(old(slots)@, old(self).stream_items@), call_span), final(slots)@, final(self).stream_items@),
        decreases budget, bound, 0nat, 0nat,
    {
        let ghost start = crate::semantics::ev_defers(*program, budget as nat, bound as nat, defers@, defers@.len(),
            machine_of(slots@, self.stream_items@), call_span);
        let mut j: usize = defers.len();
        while j > 0
            invariant
                start == crate::semantics::ev_defers(*program, budget as nat, bound as nat, defers@, defers@.len(),
            machine_of(old(slots)@, old(self).stream_items@), call_span),
                j <= defers@.len(),
                kept(*old(self), *self, *program),
                start == crate::semantics::ev_defers(*program, budget as nat, bound as nat, defers@, j as nat,
                    machine_of(slots@, self.stream_items@), call_span),
            decreases j,
        {
            let d = defers[j - 1];
            if (d as usize) >= bound {
                return Err(fault_error(call_span));
            }
            match self.eval_indexed_expr(program, budget, d, slots, call_span)? {
                IndexedFlow::Break(_) => {
                    return Err(RuntimeError::new("defer-control-flow", "deferred expression produced invalid control flow")
                        .with_span(call_span));
                },
                IndexedFlow::Continue(_) => {},
            }
            j = j - 1;
        }
        Ok(())
    }

    /// Runs the statements of a statement block's words `bw`, each with an
    /// index below `bound`.
    pub fn eval_indexed_stmts(
        &mut self,
        program: &FullProgram,
        budget: u32,
        bound: usize,
        bw: &Vec<u32>,
        slots: &mut Vec<Value>,
        call_span: Span,
        may_yield: bool,
    ) -> (r: Result<StmtFlow, RuntimeError>)
        requires
            crate::evaluator::cache_valid(old(self).indexed_function_cache@, *program),
            bw@.len() > 0,
        ensures
            kept(*old(self), *final(self), *program),
            stmt_outcome(r, crate::semantics::ev_stmts(*program, budget as nat, bound as nat, bw@.drop_first(), 0, Seq::empty(),
                machine_of(old(slots)@, old(self).stream_items@), call_span, may_yield), final(slots)@, final(self).stream_items@),
        decreases budget, bound, 1nat, 0nat,
    {
        let ghost ss = bw@.drop_first();
        let ghost start = crate::semantics::ev_stmts(*program, budget as nat, bound as nat, ss, 0, Seq::empty(),
            machine_of(slots@, self.stream_items@), call_span, may_yield);
        let n = bw.len() - 1;
        let mut defers: Vec<u32> = Vec::new();
        let mut k: usize = 0;
        while k < n
            invariant
                start == crate::semantics::ev_stmts(*program, budget as nat, bound as nat, ss, 0, Seq::empty(),
            machine_of(old(slots)@, old(self).stream_items@), call_span, may_yield),
                n == bw@.len() - 1,
                ss == bw@.drop_first(),
                k <= n,
                kept(*old(self), *self, *program),
                start == crate::semantics::ev_stmts(*program, budget as nat, bound as nat, ss, k as nat, defers@,
                    machine_of(slots@, self.stream_items@), call_span, may_yield),
            decreases n - k,
        {
            let s = bw[k + 1];
            if (s as usize) >= bound || (s as usize) >= program.execution.instructions.len() {
                return Err(fault_error(call_span));
            }
            let ins = &program.execution.instructions[s as usize];
            if ins.tag == FullTag::StmtDefer {
                if ins.words.len() == 1 && ins.words[0] < s {
                    defers.push(ins.words[0]);
                } else {
                    return Err(fault_error(call_span));
                }
            } else {
                match self.eval_indexed_stmt(program, budget, s, slots, call_span, may_yield) {
                    Err(e) => {
                        let _ = self.run_indexed_defers(program, budget, bound, &defers, slots, call_span);
                        return Err(e);
                    },
                    Ok(StmtFlow::Done) => {},
                    Ok(flow) => {
                        self.run_indexed_defers(program, budget, bound, &defers, slots, call_span)?;
                        return Ok(flow);
                    },
                }
            }
            k = k + 1;
        }
        self.run_indexed_defers(program, budget, bound, &defers, slots, call_span)?;
        Ok(StmtFlow::Done)
    }

    /// Runs statement block `block`, whose statements must index below `bound`.
    pub fn eval_indexed_statement_block(
        &mut self,
        program: &FullProgram,
        budget: u32,
        bound: usize,
        block: u32,
        slots: &mut Vec<Value>,
        call_span: Span,
        may_yield: bool,
    ) -> (r: Result<StmtFlow, RuntimeError>)
        requires
            crate::evaluator::cache_valid(old(self).indexed_function_cache@, *program),
        ensures
            kept(*old(self), *final(self), *program),
            stmt_outcome(r, match crate::blocks::statement_block_of(&program.execution, block) {
                None => Err(fault(call_span)),
                Some(ss) => crate::semantics::ev_stmts(*program, budget as nat, bound as nat, ss, 0, Seq::empty(),
                    machine_of(old(slots)@, old(self).stream_items@), call_span, may_yield),
            }, final(slots)@, final(self).stream_items@),
        decreases budget, bound, 1nat, 1nat,
    {
        let bw = match statement_block_words(program, block) {
            Some(bw) => bw,
            None => return Err(fault_error(call_span)),
        };
        self.eval_indexed_stmts(program, budget, bound, bw, slots, call_span, may_yield)
    }

    /// Runs a statement block when there is one.
    pub fn eval_indexed_optional_statement_block(
        &mut self,
        program: &FullProgram,
        budget: u32,
        bound: usize,
        block: Option<u32>,
        slots: &mut Vec<Value>,
        call_span: Span,
        may_yield: bool,
    ) -> (r: Result<Option<StmtFlow>, RuntimeError>)
        requires
            crate::evaluator::cache_valid(old(self).indexed_function_cache@, *program),
        ensures
            kept(*old(self), *final(self), *program),
            match block {
                None => r matches Ok(None) && final(slots)@ == old(slots)@ && final(self).stream_items@ == old(self).stream_items@,
                Some(b) => match crate::blocks::statement_block_of(&program.execution, b) {
                    None => r matches Err(e) && e@ == fault(call_span),
                    Some(ss) => match crate::semantics::ev_stmts(*program, budget as nat, bound as nat, ss, 0, Seq::empty(),
                        machine_of(old(slots)@, old(self).stream_items@), call_span, may_yield) {
                        Ok((end, m)) => r matches Ok(Some(f)) && f@ == end && machine_of(final(slots)@, final(self).stream_items@) == m,
                        Err(e) => r matches Err(x) && x@ == e,
                    },
                },
            },
        decreases budget, bound, 1nat, 2nat,
    {
        match block {
            None => Ok(None),
            Some(b) => {
                let flow = self.eval_indexed_statement_block(program, budget, bound, b, slots, call_span, may_yield)?;
                Ok(Some(flow))
            },
        }
    }

    /// A `for` loop over `items`, each put in slot `slot` before the body
    /// `bw` runs.
    pub fn eval_indexed_for(
        &mut self,
        program: &FullProgram,
        budget: u32,
        s: u32,
        slot: usize,
        bw: &Vec<u32>,
        items: Vec<Value>,
        slots: &mut Vec<Value>,
        call_span: Span,
        may_yield: bool,
    ) -> (r: Result<StmtFlow, RuntimeError>)
        requires
            crate::evaluator::cache_valid(old(self).indexed_function_cache@, *program),
            bw@.len() > 0,
        ensures
            kept(*old(self), *final(self), *program),
            stmt_outcome(r, crate::semantics::ev_for(*program, budget as nat, s, slot as nat, bw@.drop_first(),
                model_list(items@), 0, machine_of(old(slots)@, old(self).stream_items@), call_span, may_yield),
                final(slots)@, final(self).stream_items@),
        decreases budget, s, 2nat, 0nat,
    {
        let ghost ss = bw@.drop_first();
        let ghost ms = model_list(items@);
        let ghost start = crate::semantics::ev_for(*program, budget as nat, s, slot as nat, ss, ms, 0,
            machine_of(slots@, self.stream_items@), call_span, may_yield);
        let mut k: usize = 0;
        while k < items.len()
            invariant
                start == crate::semantics::ev_for(*program, budget as nat, s, slot as nat, ss, ms, 0,
            machine_of(old(slots)@, old(self).stream_items@), call_span, may_yield),
                ss == bw@.drop_first(),
                bw@.len() > 0,
                ms == model_list(items@),
                k <= items@.len(),
                kept(*old(self), *self, *program),
                start == crate::semantics::ev_for(*program, budget as nat, s, slot as nat, ss, ms, k as nat,
                    machine_of(slots@, self.stream_items@), call_span, may_yield),
            decreases items@.len() - k,
        {
            if slot >= slots.len() {
                return Err(fault_error(call_span));
            }
            let item = clone_value(&items[k]);
            let ghost before = model_list(slots@);
            slots.set(slot, item);
            assert(model_list(slots@) =~= before.update(slot as int, ms[k as int]));
            match self.eval_indexed_stmts(program, budget, s as usize, bw, slots, call_span, may_yield)? {
                StmtFlow::Done | StmtFlow::Continue => {},
                StmtFlow::Break => return Ok(StmtFlow::Done),
                flow => return Ok(flow),
            }
            k = k + 1;
        }
        Ok(StmtFlow::Done)
    }

    /// A `while` loop of statement `s` over the body in statement block `bw`
    /// (a `loop` when `cond` is `None`), with at most `MAX_LOOP_ROUNDS`
    /// rounds.
    pub fn eval_indexed_while(
        &mut self,
        program: &FullProgram,
        budget: u32,
        s: u32,
        cond: Option<u32>,
        bw: &Vec<u32>,
        slots: &mut Vec<Value>,
        call_span: Span,
        may_yield: bool,
    ) -> (r: Result<StmtFlow, RuntimeError>)
        requires
            crate::evaluator::cache_valid(old(self).indexed_function_cache@, *program),
            bw@.len() > 0,
        ensures
            kept(*old(self), *final(self), *program),
            stmt_outcome(r, crate::semantics::ev_while(*program, budget as nat, s, cond, bw@.drop_first(),
                crate::semantics::MAX_LOOP_ROUNDS as nat, machine_of(old(slots)@, old(self).stream_items@), call_span, may_yield),
                final(slots)@, final(self).stream_items@),
        decreases budget, s, 2nat, 0nat,
    {
        let ghost ss = bw@.drop_first();
        let ghost start = crate::semantics::ev_while(*program, budget as nat, s, cond, ss,
            crate::semantics::MAX_LOOP_ROUNDS as nat, machine_of(slots@, self.stream_items@), call_span, may_yield);
        let mut left: u64 = crate::semantics::MAX_LOOP_ROUNDS;
        loop
            invariant
                start == crate::semantics::ev_while(*program, budget as nat, s, cond, ss,
                    crate::semantics::MAX_LOOP_ROUNDS as nat, machine_of(old(slots)@, old(self).stream_items@), call_span, may_yield),
                ss == bw@.drop_first(),
                bw@.len() > 0,
                kept(*old(self), *self, *program),
                start == crate::semantics::ev_while(*program, budget as nat, s, cond, ss, left as nat,
                    machine_of(slots@, self.stream_items@), call_span, may_yield),
            decreases left,
        {
            if left == 0 {
                return Err(RuntimeError::new("step-limit", "loop ran out of rounds").with_span(call_span));
            }
            match cond {
                None => {},
                Some(c) => {
                    if c >= s {
                        return Err(fault_error(call_span));
                    }
                    match self.eval_indexed_expr(program, budget, c, slots, call_span)? {
                        IndexedFlow::Break(v) => return Ok(StmtFlow::Propagate(v)),
                        IndexedFlow::Continue(v) => {
                            if !frame_condition_bool(v, call_span)? {
                                return Ok(StmtFlow::Done);
                            }
                        },
                    }
                },
            }
            match self.eval_indexed_stmts(program, budget, s as usize, bw, slots, call_span, may_yield)? {
                StmtFlow::Done | StmtFlow::Continue => {},
                StmtFlow::Break => return Ok(StmtFlow::Done),
                flow => return Ok(flow),
            }
            left = left - 1;
        }
    }

    /// The arms of `match` statement `s`, the (pattern, guard plus one,
    /// body) triples after the count in `aw`, tried in order on `v`.
    pub fn eval_indexed_match_arms(
        &mut self,
        program: &FullProgram,
        budget: u32,
        s: u32,
        aw: &Vec<u32>,
        v: &Value,
        slots: &mut Vec<Value>,
        call_span: Span,
        span: Span,
        may_yield: bool,
    ) -> (r: Result<StmtFlow, RuntimeError>)
        requires
            crate::evaluator::cache_valid(old(self).indexed_function_cache@, *program),
            aw@.len() > 0,
        ensures
            kept(*old(self), *final(self), *program),
            stmt_outcome(r, crate::semantics::ev_arms(*program, budget as nat, s, aw@.drop_first(), 0, v@,
                machine_of(old(slots)@, old(self).stream_items@), call_span, span, may_yield),
                final(slots)@, final(self).stream_items@),
        decreases budget, s, 2nat, 0nat,
    {
        let ghost ws = aw@.drop_first();
        let ghost start = crate::semantics::ev_arms(*program, budget as nat, s, ws, 0, v@,
            machine_of(slots@, self.stream_items@), call_span, span, may_yield);
        let n = aw.len();
        let mut k: usize = 0;
        loop
            invariant
                start == crate::semantics::ev_arms(*program, budget as nat, s, ws, 0, v@,
                    machine_of(old(slots)@, old(self).stream_items@), call_span, span, may_yield),
                ws == aw@.drop_first(),
                n == aw@.len(),
                n > 0,
                3 * k <= n - 1,
                kept(*old(self), *self, *program),
                start == crate::semantics::ev_arms(*program, budget as nat, s, ws, k as nat, v@,
                    machine_of(slots@, self.stream_items@), call_span, span, may_yield),
            decreases n - 1 - 3 * k,
        {
            if n - 1 - 3 * k < 3 {
                proof { reveal_strlit("match"); reveal_strlit("no match arm matched"); }
                return Err(RuntimeError::new("match", "no match arm matched").with_span(span));
            }
            let pat = aw[3 * k + 1];
            let g1 = aw[3 * k + 2];
            let body = aw[3 * k + 3];
            assert(ws[3 * k as int] == pat && ws[(3 * k + 1) as int] == g1 && ws[(3 * k + 2) as int] == body);
            if g1 > 0 && g1 - 1 >= s {
                return Err(fault_error(call_span));
            }
            let bw = match statement_block_words(program, body) {
                Some(bw) => bw,
                None => return Err(fault_error(call_span)),
            };
            let matched = crate::patterns::indexed_pattern_matches(program, pat, v, slots, span)?;
            if !matched {
                k = k + 1;
                continue;
            }
            if g1 > 0 {
                match self.eval_indexed_expr(program, budget, g1 - 1, slots, call_span)? {
                    IndexedFlow::Break(x) => return Ok(StmtFlow::Propagate(x)),
                    IndexedFlow::Continue(c) => {
                        if !frame_condition_bool(c, call_span)? {
                            k = k + 1;
                            continue;
                        }
                    },
                }
            }
            return self.eval_indexed_stmts(program, budget, s as usize, bw, slots, call_span, may_yield);
        }
    }

    /// Runs statement `s`.
    #[verifier::rlimit(40)]
    pub fn eval_indexed_stmt(
        &mut self,
        program: &FullProgram,
        budget: u32,
        s: u32,
        slots: &mut Vec<Value>,
        call_span: Span,
        may_yield: bool,
    ) -> (r: Result<StmtFlow, RuntimeError>)
        requires
            crate::evaluator::cache_valid(old(self).indexed_function_cache@, *program),
        ensures
            kept(*old(self), *final(self), *program),
            stmt_outcome(r, crate::semantics::ev_stmt(*program, budget as nat, s,
                machine_of(old(slots)@, old(self).stream_items@), call_span, may_yield), final(slots)@, final(self).stream_items@),
            crate::semantics::failed_assignment_slots(*program, budget as nat, s,
                machine_of(old(slots)@, old(self).stream_items@), call_span) matches Some(sl)
                ==> r is Err && model_list(final(slots)@) == sl,
        decreases budget, s, 3nat, 0nat,
    {
        let (tag, w) = match instruction_at(program, s) {
            Some(x) => x,
            None => return Err(fault_error(call_span)),
        };
        match tag {
            FullTag::StmtLet => {
                if !(w.len() == 2 && w[1] < s) {
                    return Err(fault_error(call_span));
                }
                match self.eval_indexed_expr(program, budget, w[1], slots, call_span)? {
                    IndexedFlow::Break(v) => Ok(StmtFlow::Propagate(v)),
                    IndexedFlow::Continue(v) => {
                        if (w[0] as usize) < slots.len() {
                            let ghost before = model_list(slots@);
                            slots.set(w[0] as usize, v);
                            assert(model_list(slots@) =~= before.update(w@[0] as int, slots@[w@[0] as int]@));
                            Ok(StmtFlow::Done)
                        } else {
                            Err(fault_error(call_span))
                        }
                    },
                }
            },
            FullTag::StmtExpr => {
                if !(w.len() == 1 && w[0] < s) {
                    return Err(fault_error(call_span));
                }
                match self.eval_indexed_expr(program, budget, w[0], slots, call_span)? {
                    IndexedFlow::Break(v) => Ok(StmtFlow::Propagate(v)),
                    IndexedFlow::Continue(_) => Ok(StmtFlow::Done),
                }
            },
            FullTag::StmtReturn => {
                if !(w.len() == 1 && w[0] < s) {
                    return Err(fault_error(call_span));
                }
                match self.eval_indexed_expr(program, budget, w[0], slots, call_span)? {
                    IndexedFlow::Break(v) | IndexedFlow::Continue(v) => Ok(StmtFlow::Return(v)),
                }
            },
            FullTag::StmtYield => {
                if !(w.len() == 1 && w[0] < s) {
                    return Err(fault_error(call_span));
                }
                if !may_yield {
                    return Err(RuntimeError::new("control-flow", "yield outside stream producer").with_span(call_span));
                }
                match self.eval_indexed_expr(program, budget, w[0], slots, call_span)? {
                    IndexedFlow::Break(v) | IndexedFlow::Continue(v) => {
                        let ghost before = model_list(self.stream_items@);
                        self.stream_items.push(v);
                        assert(model_list(self.stream_items@) =~= before.push(self.stream_items@.last()@));
                        Ok(StmtFlow::Done)
                    },
                }
            },
            FullTag::StmtBreak => if w.len() == 0 { Ok(StmtFlow::Break) } else { Err(fault_error(call_span)) },
            FullTag::StmtContinue => if w.len() == 0 { Ok(StmtFlow::Continue) } else { Err(fault_error(call_span)) },
            FullTag::StmtAssign => {
                if !(w.len() == 6 && w[2] < s) {
                    return Err(fault_error(call_span));
                }
                let op = match assign_op_from(w[1]) {
                    Some(op) => op,
                    None => return Err(fault_error(call_span)),
                };
                match self.eval_indexed_expr(program, budget, w[2], slots, call_span)? {
                    IndexedFlow::Break(v) => Ok(StmtFlow::Propagate(v)),
                    IndexedFlow::Continue(v) => {
                        let slot = w[0] as usize;
                        if slot >= slots.len() {
                            return Err(fault_error(call_span));
                        }
                        let x = match op {
                            None => v,
                            Some(bop) => {
                                let current = clone_value(&slots[slot]);
                                apply_binary(bop, current, v, span_at(w, 3))?
                            },
                        };
                        let ghost before = model_list(slots@);
                        slots.set(slot, x);
                        assert(model_list(slots@) =~= before.update(slot as int, slots@[slot as int]@));
                        Ok(StmtFlow::Done)
                    },
                }
            },
            FullTag::StmtIf => {
                if !((w.len() == 3 && w[2] == 0 || w.len() == 4 && w[2] == 1) && w[0] < s) {
                    return Err(fault_error(call_span));
                }
                if statement_block_words(program, w[1]).is_none() {
                    return Err(fault_error(call_span));
                }
                let otherwise = if w.len() == 4 { Some(w[3]) } else { None };
                if w.len() == 4 && statement_block_words(program, w[3]).is_none() {
                    return Err(fault_error(call_span));
                }
                let then_block = w[1];
                let v = match self.eval_indexed_expr(program, budget, w[0], slots, call_span)? {
                    IndexedFlow::Break(v) => return Ok(StmtFlow::Propagate(v)),
                    IndexedFlow::Continue(v) => v,
                };
                if frame_condition_bool(v, call_span)? {
                    self.eval_indexed_statement_block(program, budget, s as usize, then_block, slots, call_span, may_yield)
                } else {
                    match self.eval_indexed_optional_statement_block(program, budget, s as usize, otherwise, slots, call_span, may_yield)? {
                        Some(flow) => Ok(flow),
                        None => Ok(StmtFlow::Done),
                    }
                }
            },
            FullTag::StmtLetRecord => {
                if !(w.len() == 5 && w[0] < s) {
                    return Err(fault_error(call_span));
                }
                let fw = match list_block_words(program, w[1], 2) {
                    Some(fw) => fw,
                    None => return Err(fault_error(call_span)),
                };
                match self.eval_indexed_expr(program, budget, w[0], slots, call_span)? {
                    IndexedFlow::Break(v) => Ok(StmtFlow::Propagate(v)),
                    IndexedFlow::Continue(v) => {
                        bind_record_fields(program, fw, &v, slots, span_at(w, 2), call_span)?;
                        Ok(StmtFlow::Done)
                    },
                }
            },
            FullTag::StmtGuard => {
                if !(w.len() == 8 && w[1] < s && w[2] <= 1) {
                    return Err(fault_error(call_span));
                }
                if statement_block_words(program, w[4]).is_none() {
                    return Err(fault_error(call_span));
                }
                let span = span_at(w, 5);
                let v = match self.eval_indexed_expr(program, budget, w[1], slots, call_span)? {
                    IndexedFlow::Break(v) => return Ok(StmtFlow::Propagate(v)),
                    IndexedFlow::Continue(v) => v,
                };
                match v {
                    Value::ResultOk(inner) => {
                        let slot = w[0] as usize;
                        if slot >= slots.len() {
                            return Err(fault_error(call_span));
                        }
                        let ghost before = model_list(slots@);
                        slots.set(slot, *inner);
                        assert(model_list(slots@) =~= before.update(slot as int, slots@[slot as int]@));
                        Ok(StmtFlow::Done)
                    },
                    Value::ResultErr(err) => {
                        if w[2] == 1 {
                            let slot = w[3] as usize;
                            if slot >= slots.len() {
                                return Err(fault_error(call_span));
                            }
                            let ghost before = model_list(slots@);
                            slots.set(slot, *err);
                            assert(model_list(slots@) =~= before.update(slot as int, slots@[slot as int]@));
                        }
                        match self.eval_indexed_statement_block(program, budget, s as usize, w[4], slots, span, may_yield)? {
                            StmtFlow::Done => Err(RuntimeError::new("guard", "guard else block must diverge").with_span(span)),
                            flow => Ok(flow),
                        }
                    },
                    other => {
                        proof { reveal_strlit("guard expected Result, found "); }
                        let mut message = String::from_str("guard expected Result, found ");
                        message.append(other.type_label());
                        Err(type_error_at(message, span))
                    },
                }
            },
            FullTag::StmtFor => {
                if !(w.len() == 3 && w[1] < s) {
                    return Err(fault_error(call_span));
                }
                let bw = match statement_block_words(program, w[2]) {
                    Some(bw) => bw,
                    None => return Err(fault_error(call_span)),
                };
                let slot = w[0] as usize;
                match self.eval_indexed_expr(program, budget, w[1], slots, call_span)? {
                    IndexedFlow::Break(v) => Ok(StmtFlow::Propagate(v)),
                    IndexedFlow::Continue(Value::List(items)) =>
                        self.eval_indexed_for(program, budget, s, slot, bw, items, slots, call_span, may_yield),
                    IndexedFlow::Continue(v) => {
                        proof { reveal_strlit("for expected List, found "); }
                        let mut message = String::from_str("for expected List, found ");
                        message.append(v.type_label());
                        Err(type_error_at(message, call_span))
                    },
                }
            },
            FullTag::StmtMatch => {
                if !(w.len() == 5 && w[0] < s) {
                    return Err(fault_error(call_span));
                }
                let aw = match list_block_words(program, w[1], 3) {
                    Some(aw) => aw,
                    None => return Err(fault_error(call_span)),
                };
                match self.eval_indexed_expr(program, budget, w[0], slots, call_span)? {
                    IndexedFlow::Break(v) => Ok(StmtFlow::Propagate(v)),
                    IndexedFlow::Continue(v) =>
                        self.eval_indexed_match_arms(program, budget, s, aw, &v, slots, call_span, span_at(w, 2), may_yield),
                }
            },
            FullTag::StmtWhile => {
                if w.len() != 2 {
                    return Err(fault_error(call_span));
                }
                let bw = match statement_block_words(program, w[1]) {
                    Some(bw) => bw,
                    None => return Err(fault_error(call_span)),
                };
                self.eval_indexed_while(program, budget, s, Some(w[0]), bw, slots, call_span, may_yield)
            },
            FullTag::StmtLoop => {
                if w.len() != 1 {
                    return Err(fault_error(call_span));
                }
                let bw = match statement_block_words(program, w[0]) {
                    Some(bw) => bw,
                    None => return Err(fault_error(call_span)),
                };
                self.eval_indexed_while(program, budget, s, None, bw, slots, call_span, may_yield)
            },
            FullTag::StmtForLines => {
                if !(w.len() == 6 && w[1] < s) {
                    return Err(fault_error(call_span));
                }
                let bw = match statement_block_words(program, w[2]) {
                    Some(bw) => bw,
                    None => return Err(fault_error(call_span)),
                };
                let slot = w[0] as usize;
                match self.eval_indexed_expr(program, budget, w[1], slots, call_span)? {
                    IndexedFlow::Break(v) => Ok(StmtFlow::Propagate(v)),
                    IndexedFlow::Continue(v) => match crate::lines::line_values_of(&v) {
                        Some(items) => self.eval_indexed_for(program, budget, s, slot, bw, items, slots, call_span, may_yield),
                        None => Err(RuntimeError::new("type-error", "lowered for lines expected Str or Bytes").with_span(span_at(w, 3))),
                    },
                }
            },
            _ => Err(fault_error(call_span)),
        }
    }
}

} // verus!

verus! {

impl Evaluator {
    /// The items from the pipeline for which `pred`, with the item in `slot`,
    /// is true.
    pub fn eval_indexed_filter(
        &mut self,
        program: &FullProgram,
        budget: u32,
        instruction: u32,
        slot: usize,
        pred: u32,
        items: &Vec<Value>,
        slots: &mut Vec<Value>,
        call_span: Span,
        span: Span,
    ) -> (r: Result<Result<Vec<Value>, Value>, RuntimeError>)
        requires
            crate::evaluator::cache_valid(old(self).indexed_function_cache@, *program),
        ensures
            kept(*old(self), *final(self), *program),
            list_outcome(r, crate::semantics::ev_filter(*program, budget as nat, instruction, slot as nat, pred,
                model_list(items@), 0, Seq::empty(), machine_of(old(slots)@, old(self).stream_items@), call_span, span),
                final(slots)@, final(self).stream_items@),
        decreases budget, instruction, 2nat, 0nat,
    {
        let ghost ms = model_list(items@);
        let ghost start = crate::semantics::ev_filter(*program, budget as nat, instruction, slot as nat, pred, ms, 0,
            Seq::empty(), machine_of(slots@, self.stream_items@), call_span, span);
        let mut acc: Vec<Value> = Vec::new();
        assert(model_list(acc@) =~= Seq::<ValueModel>::empty());
        let mut k: usize = 0;
        while k < items.len()
            invariant
                start == crate::semantics::ev_filter(*program, budget as nat, instruction, slot as nat, pred, ms, 0,
            Seq::empty(), machine_of(old(slots)@, old(self).stream_items@), call_span, span),
                ms == model_list(items@),
                k <= items@.len(),
                kept(*old(self), *self, *program),
                start == crate::semantics::ev_filter(*program, budget as nat, instruction, slot as nat, pred, ms, k as nat,
                    model_list(acc@), machine_of(slots@, self.stream_items@), call_span, span),
            decreases items@.len() - k,
        {
            if pred >= instruction || slot >= slots.len() {
                return Err(fault_error(call_span));
            }
            let ghost before = model_list(slots@);
            slots.set(slot, clone_value(&items[k]));
            assert(model_list(slots@) =~= before.update(slot as int, ms[k as int]));
            match self.eval_indexed_expr(program, budget, pred, slots, call_span)? {
                IndexedFlow::Break(v) => return Ok(Err(v)),
                IndexedFlow::Continue(Value::Bool(x)) => {
                    if x {
                        let ghost before = model_list(acc@);
                        acc.push(clone_value(&items[k]));
                        assert(model_list(acc@) =~= before.push(ms[k as int]));
                    }
                },
                IndexedFlow::Continue(v) => {
                    proof { reveal_strlit("where expected Bool, found "); }
                    let mut message = String::from_str("where expected Bool, found ");
                    message.append(v.type_label());
                    return Err(type_error_at(message, span));
                },
            }
            k = k + 1;
        }
        Ok(Ok(acc))
    }

    /// The pipeline items mapped through `value`, with the item in `slot`;
    /// when `flat`, each result's items are spliced in.
    pub fn eval_indexed_map(
        &mut self,
        program: &FullProgram,
        budget: u32,
        instruction: u32,
        slot: usize,
        value: u32,
        flat: bool,
        items: &Vec<Value>,
        slots: &mut Vec<Value>,
        call_span: Span,
        span: Span,
    ) -> (r: Result<Result<Vec<Value>, Value>, RuntimeError>)
        requires
            crate::evaluator::cache_valid(old(self).indexed_function_cache@, *program),
        ensures
            kept(*old(self), *final(self), *program),
            list_outcome(r, crate::semantics::ev_map(*program, budget as nat, instruction, slot as nat, value, flat,
                model_list(items@), 0, Seq::empty(), machine_of(old(slots)@, old(self).stream_items@), call_span, span),
                final(slots)@, final(self).stream_items@),
        decreases budget, instruction, 2nat, 0nat,
    {
        let ghost ms = model_list(items@);
        let ghost start = crate::semantics::ev_map(*program, budget as nat, instruction, slot as nat, value, flat, ms, 0,
            Seq::empty(), machine_of(slots@, self.stream_items@), call_span, span);
        let mut acc: Vec<Value> = Vec::new();
        assert(model_list(acc@) =~= Seq::<ValueModel>::empty());
        let mut k: usize = 0;
        while k < items.len()
            invariant
                start == crate::semantics::ev_map(*program, budget as nat, instruction, slot as nat, value, flat, ms, 0,
            Seq::empty(), machine_of(old(slots)@, old(self).stream_items@), call_span, span),
                ms == model_list(items@),
                k <= items@.len(),
                kept(*old(self), *self, *program),
                start == crate::semantics::ev_map(*program, budget as nat, instruction, slot as nat, value, flat, ms, k as nat,
                    model_list(acc@), machine_of(slots@, self.stream_items@), call_span, span),
            decreases items@.len() - k,
        {
            if value >= instruction || slot >= slots.len() {
                return Err(fault_error(call_span));
            }
            let ghost before = model_list(slots@);
            slots.set(slot, clone_value(&items[k]));
            assert(model_list(slots@) =~= before.update(slot as int, ms[k as int]));
            let v = match self.eval_indexed_expr(program, budget, value, slots, call_span)? {
                IndexedFlow::Break(v) => return Ok(Err(v)),
                IndexedFlow::Continue(v) => v,
            };
            if !flat {
                let ghost before = model_list(acc@);
                acc.push(v);
                assert(model_list(acc@) =~= before.push(acc@.last()@));
            } else {
                match v {
                    Value::List(mut vs) => {
                        let ghost before = model_list(acc@);
                        let ghost added = model_list(vs@);
                        acc.append(&mut vs);
                        assert(model_list(acc@) =~= before + added);
                    },
                    other => {
                        proof { reveal_strlit("flat-map expected List, found "); }
                        let mut message = String::from_str("flat-map expected List, found ");
                        message.append(other.type_label());
                        return Err(type_error_at(message, span));
                    },
                }
            }
            k = k + 1;
        }
        Ok(Ok(acc))
    }

    /// Whether any (or, when `all`, every) pipeline item satisfies `pred`,
    /// stopping at the first item that decides.
    pub fn eval_indexed_any(
        &mut self,
        program: &FullProgram,
        budget: u32,
        instruction: u32,
        slot: usize,
        pred: u32,
        all: bool,
        items: &Vec<Value>,
        slots: &mut Vec<Value>,
        call_span: Span,
        span: Span,
    ) -> (r: Result<Result<bool, Value>, RuntimeError>)
        requires
            crate::evaluator::cache_valid(old(self).indexed_function_cache@, *program),
        ensures
            kept(*old(self), *final(self), *program),
            bool_outcome(r, crate::semantics::ev_any(*program, budget as nat, instruction, slot as nat, pred, all,
                model_list(items@), 0, machine_of(old(slots)@, old(self).stream_items@), call_span, span),
                final(slots)@, final(self).stream_items@),
        decreases budget, instruction, 2nat, 0nat,
    {
        let ghost ms = model_list(items@);
        let ghost start = crate::semantics::ev_any(*program, budget as nat, instruction, slot as nat, pred, all, ms, 0,
            machine_of(slots@, self.stream_items@), call_span, span);
        let mut k: usize = 0;
        while k < items.len()
            invariant
                start == crate::semantics::ev_any(*program, budget as nat, instruction, slot as nat, pred, all, ms, 0,
            machine_of(old(slots)@, old(self).stream_items@), call_span, span),
                ms == model_list(items@),
                k <= items@.len(),
                kept(*old(self), *self, *program),
                start == crate::semantics::ev_any(*program, budget as nat, instruction, slot as nat, pred, all, ms, k as nat,
                    machine_of(slots@, self.stream_items@), call_span, span),
            decreases items@.len() - k,
        {
            if pred >= instruction || slot >= slots.len() {
                return Err(fault_error(call_span));
            }
            let ghost before = model_list(slots@);
            slots.set(slot, clone_value(&items[k]));
            assert(model_list(slots@) =~= before.update(slot as int, ms[k as int]));
            match self.eval_indexed_expr(program, budget, pred, slots, call_span)? {
                IndexedFlow::Break(v) => return Ok(Err(v)),
                IndexedFlow::Continue(Value::Bool(x)) => {
                    if x != all {
                        return Ok(Ok(x));
                    }
                },
                IndexedFlow::Continue(v) => {
                    proof {
                        reveal_strlit("all");
                        reveal_strlit("any");
                        reveal_strlit(" expected Bool, found ");
                    }
                    let mut message = if all { String::from_str("all") } else { String::from_str("any") };
                    message.append(" expected Bool, found ");
                    message.append(v.type_label());
                    return Err(type_error_at(message, span));
                },
            }
            k = k + 1;
        }
        Ok(Ok(all))
    }

    /// Whether a sort runs descending: `false` without a `--desc` expression,
    /// else the expression's value, which must be a boolean.
    pub fn eval_indexed_pipeline_descending(
        &mut self,
        program: &FullProgram,
        budget: u32,
        instruction: u32,
        descending: Option<u32>,
        slots: &mut Vec<Value>,
        call_span: Span,
        span: Span,
    ) -> (r: Result<Result<bool, Value>, RuntimeError>)
        requires
            crate::evaluator::cache_valid(old(self).indexed_function_cache@, *program),
            descending matches Some(d) ==> d < instruction,
        ensures
            kept(*old(self), *final(self), *program),
            match descending {
                None => r == Ok::<Result<bool, Value>, RuntimeError>(Ok(false)) && final(slots)@ == old(slots)@
                    && final(self).stream_items@ == old(self).stream_items@,
                Some(d) => bool_outcome(r, match crate::semantics::ev_expr(*program, budget as nat, d,
                    machine_of(old(slots)@, old(self).stream_items@), call_span) {
                    Err(e) => Err(e),
                    Ok((Flow::Exit(v), m1)) => Ok((Err(v), m1)),
                    Ok((Flow::Next(ValueModel::Bool(x)), m1)) => Ok((Ok(x), m1)),
                    Ok((Flow::Next(v), m1)) => Err(type_error("--desc expected Bool, found "@ + crate::value::spec_type_name(v), span)),
                }, final(slots)@, final(self).stream_items@),
            },
        decreases budget, instruction, 2nat, 0nat,
    {
        let d = match descending {
            None => return Ok(Ok(false)),
            Some(d) => d,
        };
        match self.eval_indexed_expr(program, budget, d, slots, call_span)? {
            IndexedFlow::Break(v) => Ok(Err(v)),
            IndexedFlow::Continue(Value::Bool(x)) => Ok(Ok(x)),
            IndexedFlow::Continue(v) => {
                proof { reveal_strlit("--desc expected Bool, found "); }
                let mut message = String::from_str("--desc expected Bool, found ");
                message.append(v.type_label());
                Err(type_error_at(message, span))
            },
        }
    }
}

} // verus!

verus! {

impl Evaluator {
    /// Runs stage `stage_id` over `items`.
    pub fn eval_indexed_stage(
        &mut self,
        program: &FullProgram,
        budget: u32,
        instruction: u32,
        stage_id: u32,
        items: Vec<Value>,
        slots: &mut Vec<Value>,
        call_span: Span,
        span: Span,
    ) -> (r: Result<Result<PipeItems, Value>, RuntimeError>)
        requires
            crate::evaluator::cache_valid(old(self).indexed_function_cache@, *program),
        ensures
            kept(*old(self), *final(self), *program),
            pipe_outcome(r, crate::semantics::stage_step(*program, budget as nat, instruction, stage_id, model_list(items@),
                machine_of(old(slots)@, old(self).stream_items@), call_span, span), final(slots)@, final(self).stream_items@),
        decreases budget, instruction, 3nat, 0nat,
    {
        if (stage_id as usize) >= program.execution.stages.len() {
            return Err(fault_error(call_span));
        }
        let stage = &program.execution.stages[stage_id as usize];
        let tag = stage.tag;
        let sw = &stage.words;
        proof {
            reveal_strlit("`");
            reveal_strlit("` expected a non-negative Int");
            reveal_strlit("sort expected Int or Str items");
            reveal_strlit("stage `");
            reveal_strlit("` cannot run in a direct pipeline");
        }
        let mut items = items;
        match tag {
            crate::ir::FullStageTag::Where => {
                if sw.len() != 2 {
                    return Err(fault_error(call_span));
                }
                match self.eval_indexed_filter(program, budget, instruction, sw[0] as usize, sw[1], &items, slots, call_span, span)? {
                    Err(v) => Ok(Err(v)),
                    Ok(kept_items) => Ok(Ok(PipeItems::Items(kept_items))),
                }
            },
            crate::ir::FullStageTag::MapItems | crate::ir::FullStageTag::FlatMap => {
                if sw.len() != 2 {
                    return Err(fault_error(call_span));
                }
                let flat = tag == crate::ir::FullStageTag::FlatMap;
                match self.eval_indexed_map(program, budget, instruction, sw[0] as usize, sw[1], flat, &items, slots, call_span, span)? {
                    Err(v) => Ok(Err(v)),
                    Ok(out) => Ok(Ok(PipeItems::Items(out))),
                }
            },
            crate::ir::FullStageTag::Any | crate::ir::FullStageTag::All => {
                if sw.len() != 2 {
                    return Err(fault_error(call_span));
                }
                let all = tag == crate::ir::FullStageTag::All;
                match self.eval_indexed_any(program, budget, instruction, sw[0] as usize, sw[1], all, &items, slots, call_span, span)? {
                    Err(v) => Ok(Err(v)),
                    Ok(x) => Ok(Ok(PipeItems::Scalar(Value::Bool(x)))),
                }
            },
            crate::ir::FullStageTag::Take | crate::ir::FullStageTag::Drop => {
                if !(sw.len() == 1 && sw[0] < instruction) {
                    return Err(fault_error(call_span));
                }
                let count = match self.eval_indexed_expr(program, budget, sw[0], slots, call_span)? {
                    IndexedFlow::Break(v) => return Ok(Err(v)),
                    IndexedFlow::Continue(Value::Int(c)) if c >= 0 => c,
                    IndexedFlow::Continue(_) => {
                        let mut message = String::from_str("`");
                        message.append(Evaluator::indexed_stage_name(tag));
                        message.append("` expected a non-negative Int");
                        return Err(type_error_at(message, span));
                    },
                };
                let c: usize = if (count as u64) <= (items.len() as u64) { count as usize } else { items.len() };
                let ghost before = model_list(items@);
                if tag == crate::ir::FullStageTag::Take {
                    items.truncate(c);
                    assert(model_list(items@) =~= before.take(c as int));
                    Ok(Ok(PipeItems::Items(items)))
                } else {
                    let rest = items.split_off(c);
                    assert(model_list(rest@) =~= before.skip(c as int));
                    Ok(Ok(PipeItems::Items(rest)))
                }
            },
            crate::ir::FullStageTag::Sort => {
                let descending = if sw.len() == 1 && sw[0] == 0 {
                    None
                } else if sw.len() == 2 && sw[0] == 1 && sw[1] < instruction {
                    Some(sw[1])
                } else {
                    return Err(fault_error(call_span));
                };
                let desc = match self.eval_indexed_pipeline_descending(program, budget, instruction, descending, slots, call_span, span)? {
                    Err(v) => return Ok(Err(v)),
                    Ok(desc) => desc,
                };
                match sort_values(&items, desc) {
                    Some(sorted) => Ok(Ok(PipeItems::Items(sorted))),
                    None => Err(type_error_at(String::from_str("sort expected Int or Str items"), span)),
                }
            },
            crate::ir::FullStageTag::Count => {
                if sw.len() != 0 {
                    return Err(fault_error(call_span));
                }
                Ok(Ok(PipeItems::Scalar(Value::Int(items.len() as i64))))
            },
            crate::ir::FullStageTag::First | crate::ir::FullStageTag::Last => {
                if sw.len() != 0 {
                    return Err(fault_error(call_span));
                }
                let n = items.len();
                Ok(Ok(PipeItems::Scalar(if n == 0 {
                    crate::pipeline::empty_stream_error_value()
                } else if tag == crate::ir::FullStageTag::First {
                    Value::ResultOk(Box::new(clone_value(&items[0])))
                } else {
                    Value::ResultOk(Box::new(clone_value(&items[n - 1])))
                })))
            },
            crate::ir::FullStageTag::Sum => {
                if sw.len() != 0 {
                    return Err(fault_error(call_span));
                }
                match int_list(&items) {
                    None => Err(RuntimeError::new("type-error", "sum expected Int stream").with_span(span)),
                    Some(ints) => match sum_ints(&ints) {
                        Some(n) => Ok(Ok(PipeItems::Scalar(Value::Int(n)))),
                        None => Err(RuntimeError::new("overflow", "integer overflow").with_span(span)),
                    },
                }
            },
            crate::ir::FullStageTag::Min | crate::ir::FullStageTag::Max => {
                if sw.len() != 0 {
                    return Err(fault_error(call_span));
                }
                match sort_values(&items, false) {
                    None => {
                        proof { reveal_strlit("`"); reveal_strlit("` expected Int or Str items"); }
                        let mut message = String::from_str("`");
                        message.append(Evaluator::indexed_stage_name(tag));
                        message.append("` expected Int or Str items");
                        Err(type_error_at(message, span))
                    },
                    Some(sorted) => {
                        let n = sorted.len();
                        Ok(Ok(PipeItems::Scalar(if n == 0 {
                            crate::pipeline::empty_stream_error_value()
                        } else if tag == crate::ir::FullStageTag::Min {
                            Value::ResultOk(Box::new(clone_value(&sorted[0])))
                        } else {
                            Value::ResultOk(Box::new(clone_value(&sorted[n - 1])))
                        })))
                    },
                }
            },
            crate::ir::FullStageTag::Collect => {
                if sw.len() != 0 {
                    return Err(fault_error(call_span));
                }
                Ok(Ok(PipeItems::Items(items)))
            },
            _ => {
                let mut message = String::from_str("stage `");
                message.append(Evaluator::indexed_stage_name(tag));
                message.append("` cannot run in a direct pipeline");
                Err(RuntimeError::new_owned("unsupported-stage", message).with_span(span))
            },
        }
    }

    /// Runs the pipeline stages whose ids are the items of `bw`, in order,
    /// over `st`.
    pub fn eval_indexed_stages(
        &mut self,
        program: &FullProgram,
        budget: u32,
        instruction: u32,
        bw: &Vec<u32>,
        st: PipeItems,
        slots: &mut Vec<Value>,
        call_span: Span,
        span: Span,
    ) -> (r: Result<Result<PipeItems, Value>, RuntimeError>)
        requires
            crate::evaluator::cache_valid(old(self).indexed_function_cache@, *program),
            bw@.len() > 0,
        ensures
            kept(*old(self), *final(self), *program),
            pipe_outcome(r, crate::semantics::ev_stages(*program, budget as nat, instruction, bw@.drop_first(), 0, st@,
                machine_of(old(slots)@, old(self).stream_items@), call_span, span), final(slots)@, final(self).stream_items@),
        decreases budget, instruction, 3nat, 1nat,
    {
        let ghost sids = bw@.drop_first();
        let ghost start = crate::semantics::ev_stages(*program, budget as nat, instruction, sids, 0, st@,
            machine_of(slots@, self.stream_items@), call_span, span);
        let n = bw.len() - 1;
        let mut cur = st;
        let mut k: usize = 0;
        while k < n
            invariant
                start == crate::semantics::ev_stages(*program, budget as nat, instruction, sids, 0, st@,
                    machine_of(old(slots)@, old(self).stream_items@), call_span, span),
                n == bw@.len() - 1,
                sids == bw@.drop_first(),
                k <= n,
                kept(*old(self), *self, *program),
                start == crate::semantics::ev_stages(*program, budget as nat, instruction, sids, k as nat, cur@,
                    machine_of(slots@, self.stream_items@), call_span, span),
            decreases n - k,
        {
            let sid = bw[k + 1];
            if (sid as usize) >= program.execution.stages.len() {
                return Err(fault_error(call_span));
            }
            let items = match cur {
                PipeItems::Items(items) => items,
                PipeItems::Scalar(_) => {
                    proof {
                        reveal_strlit("stage `");
                        reveal_strlit("` expected a sequence");
                    }
                    let mut message = String::from_str("stage `");
                    message.append(Evaluator::indexed_stage_name(program.execution.stages[sid as usize].tag));
                    message.append("` expected a sequence");
                    return Err(type_error_at(message, span));
                },
            };
            match self.eval_indexed_stage(program, budget, instruction, sid, items, slots, call_span, span)? {
                Err(v) => return Ok(Err(v)),
                Ok(next) => { cur = next; },
            }
            k = k + 1;
        }
        Ok(Ok(cur))
    }
}

} // verus!
