//! The hooks native tests run with: failure values, containment and
//! matching of expected values, error kinds, fresh temporary paths, and
//! mocked host operations.
use vstd::prelude::*;
use vstd::string::*;
use crate::value::{
    Span, RuntimeError, ErrorValue, Value, ValueModel, model_list, model_entries, entries_lookup, record_get,
    clone_value, values_equal, RecordMap,
};
use crate::text::occurs_at;
use crate::records::PathValue;
use crate::evaluator::{Evaluator, TestCall, TestMock};

verus! {

/// The error value a failed test assertion gives.
pub open spec fn failure_value(message: Seq<char>) -> ValueModel {
    ValueModel::ResultErr(Box::new(ValueModel::Error {
        kind: "test-fail"@,
        message,
        family: Seq::empty(),
        variant: Seq::empty(),
        facets: Seq::empty(),
    }))
}

/// A failed test assertion with `message`.
pub fn test_failure(message: String) -> (r: Value)
    ensures
        r@ == failure_value(message@),
{
    proof { reveal_strlit(""); }
    let facets: Vec<String> = Vec::new();
    let e = ErrorValue {
        kind: String::from_str("test-fail"),
        message,
        family: String::from_str(""),
        variant: String::from_str(""),
        facets,
    };
    assert(e.family@ =~= Seq::<char>::empty());
    assert(e.variant@ =~= Seq::<char>::empty());
    assert(crate::value::model_strings(e.facets@) =~= Seq::<Seq<char>>::empty());
    assert(e.kind@ == "test-fail"@);
    let inner = Value::Error(Box::new(e));
    assert(inner@ == ValueModel::Error { kind: "test-fail"@, message: message@, family: Seq::empty(),
        variant: Seq::empty(), facets: Seq::empty() });
    let r = Value::ResultErr(Box::new(inner));
    r
}

/// Whether `n` occurs in `h` at position `i`.
pub open spec fn bytes_occur_at(h: Seq<u8>, n: Seq<u8>, i: int) -> bool {
    0 <= i && i + n.len() <= h.len() && h.subrange(i, i + n.len()) == n
}

/// Whether `b` occurs in `a` at some position from `k` on.
pub open spec fn str_contains_from(a: Seq<char>, b: Seq<char>, k: int) -> bool
    decreases a.len() + 1 - k,
{
    if k < 0 || k + b.len() > a.len() {
        false
    } else {
        occurs_at(a, b, k) || str_contains_from(a, b, k + 1)
    }
}

/// Whether `b` occurs in `a`.
pub open spec fn str_contains(a: Seq<char>, b: Seq<char>) -> bool {
    str_contains_from(a, b, 0)
}

/// An occurrence at `i` makes `b` occur from every `k` up to `i`.
pub proof fn lemma_str_contains_from(a: Seq<char>, b: Seq<char>, k: int, i: int)
    requires
        0 <= k <= i,
        occurs_at(a, b, i),
    ensures
        str_contains_from(a, b, k),
    decreases i - k,
{
    if k < i {
        lemma_str_contains_from(a, b, k + 1, i);
    }
}

/// Without any occurrence, `b` occurs from no position.
pub proof fn lemma_str_contains_none(a: Seq<char>, b: Seq<char>, k: int)
    requires
        forall|j: int| !occurs_at(a, b, j),
    ensures
        !str_contains_from(a, b, k),
    decreases a.len() + 1 - k,
{
    if !(k < 0 || k + b.len() > a.len()) {
        lemma_str_contains_none(a, b, k + 1);
    }
}

/// Whether `b` occurs in `a` as a run of bytes at some position from `k` on.
pub open spec fn bytes_contain_from(a: Seq<u8>, b: Seq<u8>, k: int) -> bool
    decreases a.len() + 1 - k,
{
    if k < 0 || k + b.len() > a.len() {
        false
    } else {
        bytes_occur_at(a, b, k) || bytes_contain_from(a, b, k + 1)
    }
}

/// Whether some item from `k` on equals `n`.
pub open spec fn list_has_from(items: Seq<ValueModel>, n: ValueModel, k: int) -> bool
    decreases items.len() - k,
{
    if k < 0 || k >= items.len() {
        false
    } else {
        items[k] == n || list_has_from(items, n, k + 1)
    }
}

/// Whether a haystack contains a needle: a substring of a string, a run of
/// bytes, or an item of a list.
pub open spec fn contains_value(h: ValueModel, n: ValueModel) -> bool {
    match h {
        ValueModel::Str(a) => match n {
            ValueModel::Str(b) => str_contains(a, b),
            _ => false,
        },
        ValueModel::Bytes(a) => match n {
            ValueModel::Bytes(b) => b.len() == 0 || bytes_contain_from(a, b, 0),
            _ => false,
        },
        ValueModel::List(items) => list_has_from(items, n, 0),
        _ => false,
    }
}

/// Whether `n` is empty or occurs in `h` as a run of bytes.
fn bytes_contain(h: &Vec<u8>, n: &Vec<u8>) -> (r: bool)
    ensures
        r == (n@.len() == 0 || bytes_contain_from(h@, n@, 0)),
{
    if n.len() == 0 {
        return true;
    }
    if n.len() > h.len() {
        return false;
    }
    let last = h.len() - n.len();
    let mut i: usize = 0;
    while i <= last
        invariant
            last == h@.len() - n@.len(),
            h@.len() <= usize::MAX,
            n@.len() > 0,
            n@.len() <= h@.len(),
            i <= last + 1,
            bytes_contain_from(h@, n@, 0) == bytes_contain_from(h@, n@, i as int),
        decreases last + 1 - i,
    {
        let mut k: usize = 0;
        while k < n.len() && h[i + k] == n[k]
            invariant
                i + n@.len() <= h@.len(),
                h@.len() <= usize::MAX,
                k <= n@.len(),
                forall|m: int| 0 <= m < k ==> h@[i + m] == n@[m],
            decreases n@.len() - k,
        {
            k = k + 1;
        }
        if k == n.len() {
            assert(h@.subrange(i as int, i + n@.len()) =~= n@);
            return true;
        }
        assert(!bytes_occur_at(h@, n@, i as int)) by {
            if bytes_occur_at(h@, n@, i as int) {
                assert(h@.subrange(i as int, i + n@.len())[k as int] == n@[k as int]);
            }
        }
        i = i + 1;
    }
    false
}

/// Whether some item equals `n`.
fn list_contains(items: &Vec<Value>, n: &Value) -> (r: bool)
    ensures
        r == list_has_from(model_list(items@), n@, 0),
{
    let ghost ml = model_list(items@);
    let mut i: usize = 0;
    while i < items.len()
        invariant
            i <= items@.len(),
            ml == model_list(items@),
            list_has_from(ml, n@, 0) == list_has_from(ml, n@, i as int),
        decreases items@.len() - i,
    {
        if values_equal(&items[i], n) {
            assert(ml[i as int] == n@);
            return true;
        }
        i = i + 1;
    }
    false
}

/// Whether a haystack contains a needle.
pub fn test_contains_value(haystack: &Value, needle: &Value) -> (r: bool)
    ensures
        r == contains_value(haystack@, needle@),
{
    match haystack {
        Value::Str(h) => match needle {
            Value::Str(n) => {
                let found = crate::text::str_find(h.as_str(), n.as_str());
                match found {
                    Some(i) => {
                        proof { lemma_str_contains_from(h@, n@, 0, i as int); }
                        true
                    },
                    None => {
                        proof { lemma_str_contains_none(h@, n@, 0); }
                        false
                    },
                }
            },
            _ => false,
        },
        Value::Bytes(h) => match needle {
            Value::Bytes(n) => bytes_contain(h, n),
            _ => false,
        },
        Value::List(items) => list_contains(items, needle),
        _ => false,
    }
}

/// The kind of the error a value stands for.
pub open spec fn error_kind_of(v: ValueModel) -> Option<Seq<char>> {
    match v {
        ValueModel::Error { kind, .. } => Some(kind),
        ValueModel::RunError { kind, .. } => Some(kind),
        _ => None,
    }
}

/// The error kind a test sees in a value: through a successful result to
/// its value, of a failed result's error, or of the value itself.
pub open spec fn test_kind_of(v: ValueModel) -> Option<Seq<char>>
    decreases v,
{
    match v {
        ValueModel::ResultOk(inner) => test_kind_of(*inner),
        ValueModel::ResultErr(error) => error_kind_of(*error),
        _ => error_kind_of(v),
    }
}

/// The kind of the error a value stands for.
fn error_kind(value: &Value) -> (r: Option<String>)
    ensures
        match error_kind_of(value@) {
            Some(k) => r matches Some(s) && s@ == k,
            None => r is None,
        },
{
    match value {
        Value::Error(e) => Some(e.kind.clone()),
        Value::RunError { kind, .. } => Some(kind.clone()),
        _ => None,
    }
}

/// The error kind a test sees in a value.
pub fn test_error_kind(value: &Value) -> (r: Option<String>)
    ensures
        match test_kind_of(value@) {
            Some(k) => r matches Some(s) && s@ == k,
            None => r is None,
        },
    decreases value,
{
    match value {
        Value::ResultOk(inner) => test_error_kind(inner),
        Value::ResultErr(error) => error_kind(error),
        _ => error_kind(value),
    }
}

/// Whether an actual value matches an expected one: records field by field
/// for the fields expected, anything else by equality.
pub open spec fn value_matches(expected: ValueModel, actual: ValueModel) -> bool
    decreases expected, 0int,
{
    match (expected, actual) {
        (ValueModel::Record(e), ValueModel::Record(a)) => record_matches_from(e, a, 0),
        _ => expected == actual,
    }
}

/// Whether every expected field from `i` on is present in `actual` with a
/// matching value.
pub open spec fn record_matches_from(matcher: Seq<(Seq<char>, ValueModel)>, actual: Seq<(Seq<char>, ValueModel)>, i: int) -> bool
    decreases matcher, matcher.len() - i,
{
    if i < 0 || i >= matcher.len() {
        true
    } else {
        proof { assert(decreases_to!(matcher => matcher[i])); }
        match entries_lookup(actual, matcher[i].0) {
            Some(v) => value_matches(matcher[i].1, v) && record_matches_from(matcher, actual, i + 1),
            None => false,
        }
    }
}

/// Whether `actual` holds every field of `matcher` with a matching value.
pub fn test_record_matches(matcher: &RecordMap, actual: &RecordMap) -> (r: bool)
    ensures
        r == record_matches_from(model_entries(matcher@), model_entries(actual@), 0),
    decreases matcher, 0nat,
{
    let ghost mm = model_entries(matcher@);
    let ghost ma = model_entries(actual@);
    let mut i: usize = 0;
    while i < matcher.len()
        invariant
            i <= matcher@.len(),
            mm == model_entries(matcher@),
            ma == model_entries(actual@),
            record_matches_from(mm, ma, 0) == record_matches_from(mm, ma, i as int),
        decreases matcher@.len() - i,
    {
        proof { vstd::std_specs::vec::axiom_vec_index_decreases(*matcher, i as int); }
        let found = record_get(actual, matcher[i].0.as_str());
        match found {
            None => return false,
            Some(v) => {
                if !test_value_matches(&matcher[i].1, v) {
                    return false;
                }
            },
        }
        i = i + 1;
    }
    true
}

/// Whether an actual value matches an expected one.
pub fn test_value_matches(expected: &Value, actual: &Value) -> (r: bool)
    ensures
        r == value_matches(expected@, actual@),
    decreases expected, 1nat,
{
    match (expected, actual) {
        (Value::Record(e), Value::Record(a)) => test_record_matches(e, a),
        _ => values_equal(expected, actual),
    }
}

} // verus!

verus! {

/// Whether a character may not stand in a file name as it is.
pub open spec fn unsafe_name_char(c: char) -> bool {
    c == '/' || c == '\\' || c == ':' || c == '\0'
}

/// A name with every character that may not stand in a file name replaced
/// by `_`.
pub open spec fn sanitized(name: Seq<char>) -> Seq<char> {
    Seq::new(name.len(), |i: int| if unsafe_name_char(name[i]) { '_' } else { name[i] })
}

/// The name of the `counter`th temporary path a test asks for by `name`:
/// `tmp` for a blank name, else the sanitized name, then `-` and the count.
pub open spec fn temp_name(name: Seq<char>, counter: nat) -> Seq<char> {
    (if crate::text::spec_trim(name).len() == 0 { "tmp"@ } else { sanitized(name) }) + "-"@ + crate::text::decimal(counter)
}

/// The bytes of `root` joined with `text`'s: separated by one `/` unless
/// the root is empty or already ends in one.
pub open spec fn joined_path(root: Seq<u8>, text: Seq<u8>) -> Seq<u8> {
    if root.len() == 0 {
        text
    } else if root.last() == 47u8 {
        root + text
    } else {
        root.push(47u8) + text
    }
}

impl PathValue {
    /// This path joined with a relative name; the name may hold no NUL.
    pub fn join_text(&self, text: &str) -> (r: Result<PathValue, RuntimeError>)
        ensures
            match crate::records::path_of_text(text@) {
                Some(b) => r matches Ok(p) && p.bytes@ == joined_path(self.bytes@, b),
                None => r matches Err(e) && e@ == crate::value::err_model("path"@, "paths cannot contain NUL"@, None),
            },
    {
        let tail = PathValue::from_text(text)?;
        let mut out = self.bytes.clone();
        assert(out@ =~= self.bytes@);
        if out.len() > 0 && out[out.len() - 1] != 47u8 {
            out.push(47u8);
        }
        let ghost base = out@;
        let mut i: usize = 0;
        while i < tail.bytes.len()
            invariant
                i <= tail.bytes@.len(),
                out@ == base + tail.bytes@.take(i as int),
            decreases tail.bytes@.len() - i,
        {
            out.push(tail.bytes[i]);
            i = i + 1;
            assert(out@ =~= base + tail.bytes@.take(i as int));
        }
        assert(tail.bytes@.take(tail.bytes@.len() as int) =~= tail.bytes@);
        Ok(PathValue { bytes: out })
    }
}

/// The sanitized form of a test's temporary name.
fn sanitize_name(name: &str) -> (r: String)
    ensures
        r@ == sanitized(name@),
{
    proof { reveal_strlit("_"); reveal_strlit(""); }
    let n = name.unicode_len();
    let mut out = String::from_str("");
    let mut i: usize = 0;
    while i < n
        invariant
            n == name@.len(),
            i <= n,
            out@ == sanitized(name@).take(i as int),
        decreases n - i,
    {
        let c = name.get_char(i);
        if c == '/' || c == '\\' || c == ':' || c == '\0' {
            proof { reveal_strlit("_"); }
            assert("_"@ =~= seq!['_']);
            out.append("_");
        } else {
            let piece = name.substring_char(i, i + 1);
            assert(piece@ =~= seq![c]);
            out.append(piece);
        }
        i = i + 1;
        assert(out@ =~= sanitized(name@).take(i as int));
    }
    assert(sanitized(name@).take(n as int) =~= sanitized(name@));
    out
}

/// What reading a path field gives: the path's bytes, or the error.
pub open spec fn record_path_result(record: RecordMap, name: Seq<char>, span: Span) -> Result<Seq<u8>, crate::value::ErrorModel> {
    match crate::records::field_of(record, name) {
        None => Err(crate::records::missing_field_error(name, span)),
        Some(ValueModel::Path(b)) => Ok(b),
        Some(ValueModel::Str(s)) => match crate::records::path_of_text(s) {
            Some(b) => Ok(b),
            None => Err(crate::value::err_model("path"@, "paths cannot contain NUL"@, Some(span))),
        },
        Some(v) => Err(crate::records::field_type_error(name, "Path"@, v, span)),
    }
}

/// A fresh temporary path under the test context's `temp_root`: the
/// evaluator's counter goes up by one and numbers it.
pub fn test_temp_path(evaluator: &mut Evaluator, ctx: &RecordMap, name: &str, span: Span) -> (r: Result<PathValue, RuntimeError>)
    requires
        old(evaluator).test_temp_counter < u64::MAX,
    ensures
        match record_path_result(*ctx, "temp_root"@, span) {
            Err(e) => r matches Err(x) && x@ == e && final(evaluator).test_temp_counter == old(evaluator).test_temp_counter,
            Ok(root) => final(evaluator).test_temp_counter == old(evaluator).test_temp_counter + 1
                && match crate::records::path_of_text(temp_name(name@, final(evaluator).test_temp_counter as nat)) {
                    Some(b) => r matches Ok(p) && p.bytes@ == joined_path(root, b),
                    None => r matches Err(x) && x@ == crate::value::err_model("path"@, "paths cannot contain NUL"@, Some(span)),
                },
        },
{
    proof { reveal_strlit("temp_root"); reveal_strlit("tmp"); reveal_strlit("-"); }
    let root = crate::records::record_path(ctx, "temp_root", span)?;
    evaluator.test_temp_counter = evaluator.test_temp_counter + 1;
    let mut text = if crate::text::str_trim(name).is_empty() {
        String::from_str("tmp")
    } else {
        sanitize_name(name)
    };
    text.append("-");
    crate::text::push_decimal(&mut text, evaluator.test_temp_counter);
    match root.join_text(text.as_str()) {
        Ok(p) => Ok(p),
        Err(e) => Err(e.with_span(span)),
    }
}

} // verus!

verus! {

/// The first mocked operation list for `op`, searching from `k`.
pub open spec fn mock_entry_from(mocks: Seq<(String, Vec<TestMock>)>, op: Seq<char>, k: int) -> Option<int>
    decreases mocks.len() - k,
{
    if k < 0 || k >= mocks.len() {
        None
    } else if mocks[k].0@ == op {
        Some(k)
    } else {
        mock_entry_from(mocks, op, k + 1)
    }
}

/// The first mock from `k` on that may still answer and whose matcher the
/// arguments match.
pub open spec fn first_answering_mock(ms: Seq<TestMock>, args: Seq<(Seq<char>, ValueModel)>, k: int) -> Option<int>
    decreases ms.len() - k,
{
    if k < 0 || k >= ms.len() {
        None
    } else if ms[k].remaining > 0 && record_matches_from(model_entries(ms[k].matcher@), args, 0) {
        Some(k)
    } else {
        first_answering_mock(ms, args, k + 1)
    }
}

/// The error a host operation no mock answers gives.
pub open spec fn unmatched_mock_value(op: Seq<char>) -> ValueModel {
    ValueModel::ResultErr(Box::new(ValueModel::Error {
        kind: "test-unmatched-mock"@,
        message: "no mock matched host operation `"@ + op + "`"@,
        family: Seq::empty(),
        variant: Seq::empty(),
        facets: Seq::empty(),
    }))
}

/// Records a host operation a test makes and answers it from the test's
/// mocks: `None` when the operation is not mocked; else the first mock that
/// may still answer and matches the arguments answers, one answer fewer
/// left; else an error.
#[verifier::loop_isolation(false)]
pub fn intercept_test_host_call(evaluator: &mut Evaluator, op: &str, args: RecordMap, span: Span) -> (r: Option<Value>)
    ensures
        final(evaluator).test_calls@.len() == old(evaluator).test_calls@.len() + 1,
        final(evaluator).test_calls@.take(old(evaluator).test_calls@.len() as int) == old(evaluator).test_calls@,
        final(evaluator).test_calls@.last().op@ == op@,
        model_entries(final(evaluator).test_calls@.last().args@) == model_entries(args@),
        match mock_entry_from(old(evaluator).test_mocks@, op@, 0) {
            None => r is None && final(evaluator).test_mocks@ == old(evaluator).test_mocks@,
            Some(i) => match first_answering_mock(old(evaluator).test_mocks@[i].1@, model_entries(args@), 0) {
                None => r matches Some(v) && v@ == unmatched_mock_value(op@)
                    && final(evaluator).test_mocks@ == old(evaluator).test_mocks@,
                Some(j) => r matches Some(v) && v@ == old(evaluator).test_mocks@[i].1@[j].result@
                    && final(evaluator).test_mocks@.len() == old(evaluator).test_mocks@.len()
                    && (forall|k: int| 0 <= k < old(evaluator).test_mocks@.len() && k != i
                        ==> final(evaluator).test_mocks@[k] == old(evaluator).test_mocks@[k])
                    && final(evaluator).test_mocks@[i].0 == old(evaluator).test_mocks@[i].0
                    && final(evaluator).test_mocks@[i].1@.len() == old(evaluator).test_mocks@[i].1@.len()
                    && (forall|k: int| 0 <= k < old(evaluator).test_mocks@[i].1@.len() && k != j
                        ==> final(evaluator).test_mocks@[i].1@[k] == old(evaluator).test_mocks@[i].1@[k])
                    && final(evaluator).test_mocks@[i].1@[j].remaining == old(evaluator).test_mocks@[i].1@[j].remaining - 1
                    && final(evaluator).test_mocks@[i].1@[j].matcher == old(evaluator).test_mocks@[i].1@[j].matcher
                    && final(evaluator).test_mocks@[i].1@[j].result == old(evaluator).test_mocks@[i].1@[j].result,
            },
        },
{
    let call = TestCall { op: String::from_str(op), args: crate::value::clone_entries(&args) };
    evaluator.test_calls.push(call);
    let ghost calls1 = evaluator.test_calls@;
    assert(calls1.take(old(evaluator).test_calls@.len() as int) =~= old(evaluator).test_calls@);
    let ghost mocks0 = evaluator.test_mocks@;
    let mut i: usize = 0;
    while i < evaluator.test_mocks.len()
        invariant
            i <= evaluator.test_mocks@.len(),
            evaluator.test_mocks@ == mocks0,
            evaluator.test_calls@ == calls1,
            mock_entry_from(mocks0, op@, 0) == mock_entry_from(mocks0, op@, i as int),
        decreases evaluator.test_mocks@.len() - i,
    {
        if crate::text::str_eq(evaluator.test_mocks[i].0.as_str(), op) {
            break;
        }
        i = i + 1;
    }
    if i == evaluator.test_mocks.len() {
        return None;
    }
    let ghost am = model_entries(args@);
    let n = evaluator.test_mocks[i].1.len();
    let mut j: usize = 0;
    while j < n
        invariant
            i < evaluator.test_mocks@.len(),
            evaluator.test_mocks@ == mocks0,
            evaluator.test_calls@ == calls1,
            n == mocks0[i as int].1@.len(),
            j <= n,
            am == model_entries(args@),
            first_answering_mock(mocks0[i as int].1@, am, 0) == first_answering_mock(mocks0[i as int].1@, am, j as int),
        decreases n - j,
    {
        let answers = {
            let m = &evaluator.test_mocks[i].1[j];
            m.remaining > 0 && test_record_matches(&m.matcher, &args)
        };
        if answers {
            let (key, mut ms) = evaluator.test_mocks.remove(i);
            let mut mock = ms.remove(j);
            mock.remaining = mock.remaining - 1;
            let result = clone_value(&mock.result);
            ms.insert(j, mock);
            evaluator.test_mocks.insert(i, (key, ms));
            proof {
                assert(evaluator.test_mocks@.len() == mocks0.len());
            }
            return Some(result);
        }
        j = j + 1;
    }
    proof {
        reveal_strlit("test-unmatched-mock");
        reveal_strlit("no mock matched host operation `");
        reveal_strlit("`");
        reveal_strlit("");
    }
    let mut message = String::from_str("no mock matched host operation `");
    message.append(op);
    message.append("`");
    let e = ErrorValue {
        kind: String::from_str("test-unmatched-mock"),
        message,
        family: String::from_str(""),
        variant: String::from_str(""),
        facets: Vec::new(),
    };
    assert(e.family@ =~= Seq::<char>::empty());
    assert(e.variant@ =~= Seq::<char>::empty());
    assert(crate::value::model_strings(e.facets@) =~= Seq::<Seq<char>>::empty());
    let inner = Value::Error(Box::new(e));
    assert(inner@ == ValueModel::Error {
        kind: "test-unmatched-mock"@,
        message: "no mock matched host operation `"@ + op@ + "`"@,
        family: Seq::empty(),
        variant: Seq::empty(),
        facets: Seq::empty(),
    });
    Some(Value::ResultErr(Box::new(inner)))
}

} // verus!
