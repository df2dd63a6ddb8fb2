//! Reading typed fields out of option records, with the errors a script sees
//! when a field is missing or has the wrong type.
use vstd::prelude::*;
use crate::value::{
    Value, ValueModel, RecordMap, RuntimeError, ErrorModel, Span, err_model, entries_lookup, model_entries,
    record_get, spec_type_name,
};
use crate::text::{str_concat, str_concat3};
use vstd::string::*;
use vstd::utf8::encode_utf8;

verus! {

/// The field `name` of `record`, as a model.
pub open spec fn field_of(record: RecordMap, name: Seq<char>) -> Option<ValueModel> {
    entries_lookup(model_entries(record@), name)
}

/// The error for a field of the wrong type.
pub open spec fn field_type_error(name: Seq<char>, expected: Seq<char>, found: ValueModel, span: Span) -> ErrorModel {
    err_model("type-error"@, name + " expected "@ + expected + ", found "@ + spec_type_name(found), Some(span))
}

/// The error for a missing field.
pub open spec fn missing_field_error(name: Seq<char>, span: Span) -> ErrorModel {
    err_model("missing-field"@, "missing `"@ + name + "`"@, Some(span))
}

/// Builds the error for a field of the wrong type.
fn field_type_error_value(name: &str, expected: &str, found: &Value, span: Span) -> (e: RuntimeError)
    ensures
        e@ == field_type_error(name@, expected@, found@, span),
{
    let mut message = str_concat3(name, " expected ", expected);
    message.append(", found ");
    message.append(found.type_label());
    RuntimeError::new_owned("type-error", message).with_span(span)
}

/// Builds the error for a missing field.
fn missing_field_error_value(name: &str, span: Span) -> (e: RuntimeError)
    ensures
        e@ == missing_field_error(name@, span),
{
    RuntimeError::new_owned("missing-field", str_concat3("missing `", name, "`")).with_span(span)
}

/// A string field, or `default` when it is missing.
pub fn record_str(record: &RecordMap, name: &str, default: Option<&str>, span: Span) -> (r: Result<String, RuntimeError>)
    ensures
        match field_of(*record, name@) {
            Some(ValueModel::Str(s)) => r matches Ok(t) && t@ == s,
            Some(v) => r matches Err(e) && e@ == field_type_error(name@, "Str"@, v, span),
            None => match default {
                Some(d) => r matches Ok(t) && t@ == d@,
                None => r matches Err(e) && e@ == missing_field_error(name@, span),
            },
        },
{
    match record_get(record, name) {
        Some(Value::Str(value)) => Ok(value.clone()),
        Some(value) => Err(field_type_error_value(name, "Str", value, span)),
        None => match default {
            Some(d) => Ok(String::from_str(d)),
            None => Err(missing_field_error_value(name, span)),
        },
    }
}

/// A boolean field, or `default` when it is missing.
pub fn record_bool(record: &RecordMap, name: &str, default: bool, span: Span) -> (r: Result<bool, RuntimeError>)
    ensures
        match field_of(*record, name@) {
            Some(ValueModel::Bool(b)) => r == Ok::<bool, RuntimeError>(b),
            Some(v) => r matches Err(e) && e@ == field_type_error(name@, "Bool"@, v, span),
            None => r == Ok::<bool, RuntimeError>(default),
        },
{
    match record_get(record, name) {
        Some(Value::Bool(value)) => Ok(*value),
        Some(value) => Err(field_type_error_value(name, "Bool", value, span)),
        None => Ok(default),
    }
}

/// A duration field in milliseconds, or none when it is missing.
pub fn record_duration(record: &RecordMap, name: &str, span: Span) -> (r: Result<Option<u64>, RuntimeError>)
    ensures
        match field_of(*record, name@) {
            Some(ValueModel::Duration(ms)) => r == Ok::<Option<u64>, RuntimeError>(Some(ms)),
            Some(v) => r matches Err(e) && e@ == field_type_error(name@, "Duration"@, v, span),
            None => r == Ok::<Option<u64>, RuntimeError>(None),
        },
{
    match record_get(record, name) {
        Some(Value::Duration(millis)) => Ok(Some(*millis)),
        Some(value) => Err(field_type_error_value(name, "Duration", value, span)),
        None => Ok(None),
    }
}

/// The error for a negative count.
pub open spec fn negative_error(name: Seq<char>, span: Span) -> ErrorModel {
    err_model("range-error"@, name + " cannot be negative"@, Some(span))
}

/// A non-negative integer field, or `default` when it is missing.
pub fn record_nonnegative_usize(record: &RecordMap, name: &str, default: usize, span: Span) -> (r: Result<usize, RuntimeError>)
    ensures
        match field_of(*record, name@) {
            Some(ValueModel::Int(n)) => if n >= 0 {
                r == Ok::<usize, RuntimeError>(n as usize)
            } else {
                r matches Err(e) && e@ == negative_error(name@, span)
            },
            Some(v) => r matches Err(e) && e@ == field_type_error(name@, "Int"@, v, span),
            None => r == Ok::<usize, RuntimeError>(default),
        },
{
    match record_get(record, name) {
        Some(Value::Int(value)) => {
            if *value >= 0 {
                Ok(*value as usize)
            } else {
                Err(RuntimeError::new_owned("range-error", str_concat(name, " cannot be negative")).with_span(span))
            }
        },
        Some(value) => Err(field_type_error_value(name, "Int", value, span)),
        None => Ok(default),
    }
}

/// A non-negative integer field, or none when it is missing.
pub fn record_optional_positive_u64(record: &RecordMap, name: &str, span: Span) -> (r: Result<Option<u64>, RuntimeError>)
    ensures
        match field_of(*record, name@) {
            Some(ValueModel::Int(n)) => if n >= 0 {
                r == Ok::<Option<u64>, RuntimeError>(Some(n as u64))
            } else {
                r matches Err(e) && e@ == negative_error(name@, span)
            },
            Some(v) => r matches Err(e) && e@ == field_type_error(name@, "Int"@, v, span),
            None => r == Ok::<Option<u64>, RuntimeError>(None),
        },
{
    match record_get(record, name) {
        Some(Value::Int(value)) => {
            if *value >= 0 {
                Ok(Some(*value as u64))
            } else {
                Err(RuntimeError::new_owned("range-error", str_concat(name, " cannot be negative")).with_span(span))
            }
        },
        Some(value) => Err(field_type_error_value(name, "Int", value, span)),
        None => Ok(None),
    }
}

/// A non-negative integer field, or `default` when it is missing.
pub fn record_positive_u64(record: &RecordMap, name: &str, default: u64, span: Span) -> (r: Result<u64, RuntimeError>)
    ensures
        match field_of(*record, name@) {
            Some(ValueModel::Int(n)) => if n >= 0 {
                r == Ok::<u64, RuntimeError>(n as u64)
            } else {
                r matches Err(e) && e@ == negative_error(name@, span)
            },
            Some(v) => r matches Err(e) && e@ == field_type_error(name@, "Int"@, v, span),
            None => r == Ok::<u64, RuntimeError>(default),
        },
{
    match record_optional_positive_u64(record, name, span)? {
        Some(value) => Ok(value),
        None => Ok(default),
    }
}

/// An integer field that must be present; a missing one raises `kind`.
pub fn record_int_field(record: &RecordMap, field: &str, kind: &str, span: Span) -> (r: Result<i64, RuntimeError>)
    ensures
        match field_of(*record, field@) {
            Some(ValueModel::Int(n)) => r == Ok::<i64, RuntimeError>(n),
            Some(v) => r matches Err(e) && e@ == err_model(
                "type-error"@, "expected `"@ + field@ + "` to be Int, found "@ + spec_type_name(v), Some(span)),
            None => r matches Err(e) && e@ == err_model(kind@, "missing `"@ + field@ + "` field"@, Some(span)),
        },
{
    match record_get(record, field) {
        Some(Value::Int(value)) => Ok(*value),
        Some(value) => {
            let mut message = str_concat3("expected `", field, "` to be Int, found ");
            message.append(value.type_label());
            Err(RuntimeError::new_owned("type-error", message).with_span(span))
        },
        None => Err(RuntimeError::new_owned(kind, str_concat3("missing `", field, "` field")).with_span(span)),
    }
}

} // verus!

verus! {

/// A path as the bytes that name it.
#[derive(Debug)]
pub struct PathValue {
    pub bytes: Vec<u8>,
}

/// The path a text names: its UTF-8 bytes, which may hold no NUL.
pub open spec fn path_of_text(text: Seq<char>) -> Option<Seq<u8>> {
    if encode_utf8(text).contains(0u8) { None } else { Some(encode_utf8(text)) }
}

impl PathValue {
    /// The path a text names.
    pub fn from_text(text: &str) -> (r: Result<PathValue, RuntimeError>)
        ensures
            match path_of_text(text@) {
                Some(b) => r matches Ok(p) && p.bytes@ == b,
                None => r matches Err(e) && e@ == err_model("path"@, "paths cannot contain NUL"@, None),
            },
    {
        let bytes = vstd::string::StrSliceExecFns::as_bytes_vec(text);
        let mut i: usize = 0;
        while i < bytes.len()
            invariant
                bytes@ == text.spec_bytes(),
                i <= bytes@.len(),
                forall|k: int| 0 <= k < i ==> bytes@[k] != 0u8,
            decreases bytes@.len() - i,
        {
            if bytes[i] == 0u8 {
                return Err(RuntimeError::new("path", "paths cannot contain NUL"));
            }
            i = i + 1;
        }
        Ok(PathValue { bytes })
    }
}

/// The path a value names.
pub fn value_to_path(value: &Value, name: &str, span: Span) -> (r: Result<PathValue, RuntimeError>)
    ensures
        match value@ {
            ValueModel::Path(b) => r matches Ok(p) && p.bytes@ == b,
            ValueModel::Str(s) => match path_of_text(s) {
                Some(b) => r matches Ok(p) && p.bytes@ == b,
                None => r matches Err(e) && e@ == err_model("path"@, "paths cannot contain NUL"@, Some(span)),
            },
            v => r matches Err(e) && e@ == field_type_error(name@, "Path"@, v, span),
        },
{
    match value {
        Value::Path(bytes) => {
            let b = bytes.clone();
            assert(b@ =~= bytes@);
            Ok(PathValue { bytes: b })
        },
        Value::Str(text) => match PathValue::from_text(text.as_str()) {
            Ok(p) => Ok(p),
            Err(error) => Err(error.with_span(span)),
        },
        value => Err(field_type_error_value(name, "Path", value, span)),
    }
}

/// The path field `name`, which must be present.
pub fn record_path(record: &RecordMap, name: &str, span: Span) -> (r: Result<PathValue, RuntimeError>)
    ensures
        match field_of(*record, name@) {
            None => r matches Err(e) && e@ == missing_field_error(name@, span),
            Some(ValueModel::Path(b)) => r matches Ok(p) && p.bytes@ == b,
            Some(ValueModel::Str(s)) => match path_of_text(s) {
                Some(b) => r matches Ok(p) && p.bytes@ == b,
                None => r matches Err(e) && e@ == err_model("path"@, "paths cannot contain NUL"@, Some(span)),
            },
            Some(v) => r matches Err(e) && e@ == field_type_error(name@, "Path"@, v, span),
        },
{
    let value = match record_get(record, name) {
        Some(v) => v,
        None => return Err(missing_field_error_value(name, span)),
    };
    value_to_path(value, name, span)
}

/// An error a process run reported.
pub struct RunError {
    pub kind: String,
    pub message: String,
}

/// A process error, raised as a runtime error at `span`.
pub fn run_error_to_runtime(error: RunError, span: Span) -> (e: RuntimeError)
    ensures
        e@ == err_model(error.kind@, error.message@, Some(span)),
{
    RuntimeError { kind: error.kind, message: error.message, span: Some(span) }
}

} // verus!

verus! {

/// A script path on the host: absolute paths stay, relative ones are taken
/// from the evaluator's working directory.
pub open spec fn host_path_of(cwd: Seq<u8>, path: Seq<u8>) -> Seq<u8> {
    if path.len() > 0 && path[0] == 47u8 { path } else { cwd + seq![47u8] + path }
}

/// Where `path` points on the host, relative paths taken from `cwd`.
pub fn host_path_from(cwd: &Vec<u8>, path: &PathValue) -> (r: Vec<u8>)
    ensures
        r@ == host_path_of(cwd@, path.bytes@),
{
    if path.bytes.len() > 0 && path.bytes[0] == 47u8 {
        let b = path.bytes.clone();
        assert(b@ =~= path.bytes@);
        return b;
    }
    let mut out = cwd.clone();
    out.push(47u8);
    let mut i: usize = 0;
    let ghost base = out@;
    assert(base =~= cwd@ + seq![47u8]);
    while i < path.bytes.len()
        invariant
            i <= path.bytes@.len(),
            out@ == base + path.bytes@.take(i as int),
        decreases path.bytes@.len() - i,
    {
        out.push(path.bytes[i]);
        i = i + 1;
        assert(out@ =~= base + path.bytes@.take(i as int));
    }
    assert(path.bytes@.take(path.bytes@.len() as int) =~= path.bytes@);
    out
}

impl crate::evaluator::Evaluator {
    /// Where a script path points on the host.
    pub fn host_path(&self, path: &PathValue) -> (r: Vec<u8>)
        ensures
            r@ == host_path_of(self.cwd@, path.bytes@),
    {
        host_path_from(&self.cwd, path)
    }
}

/// The body of a network request.
pub enum NetBody {
    Empty,
    Bytes(Vec<u8>),
    File(Vec<u8>),
}

/// A header of a network request.
pub struct NetHeader {
    pub name: String,
    pub value: String,
}

/// How many of the body fields a request record sets.
pub open spec fn body_field_count(record: RecordMap) -> nat {
    (if field_of(record, "body"@) is Some { 1nat } else { 0nat })
        + (if field_of(record, "body_text"@) is Some { 1nat } else { 0nat })
        + (if field_of(record, "body_file"@) is Some { 1nat } else { 0nat })
}

/// The request body a record describes: at most one of `body` (Bytes),
/// `body_text` (Str) and `body_file` (a path) may be set.
pub fn net_body_from_record(
    evaluator: &crate::evaluator::Evaluator,
    record: &RecordMap,
    span: Span,
) -> (r: Result<NetBody, RuntimeError>)
    ensures
        body_field_count(*record) > 1 ==> (r matches Err(e) && e@ == err_model(
            "net-body"@, "only one of body, body_text, or body_file can be set"@, Some(span))),
        body_field_count(*record) <= 1 ==> match field_of(*record, "body"@) {
            Some(ValueModel::Bytes(b)) => r matches Ok(NetBody::Bytes(out)) && out@ == b,
            Some(v) => r matches Err(e) && e@ == field_type_error("body"@, "Bytes"@, v, span),
            None => match field_of(*record, "body_text"@) {
                Some(ValueModel::Str(t)) => r matches Ok(NetBody::Bytes(out)) && out@ == encode_utf8(t),
                Some(v) => r matches Err(e) && e@ == field_type_error("body_text"@, "Str"@, v, span),
                None => match field_of(*record, "body_file"@) {
                    Some(ValueModel::Path(p)) => r matches Ok(NetBody::File(out))
                        && out@ == host_path_of(evaluator.cwd@, p),
                    Some(ValueModel::Str(t)) => match path_of_text(t) {
                        Some(p) => r matches Ok(NetBody::File(out)) && out@ == host_path_of(evaluator.cwd@, p),
                        None => r matches Err(e) && e@ == err_model("path"@, "paths cannot contain NUL"@, Some(span)),
                    },
                    Some(v) => r matches Err(e) && e@ == field_type_error("body_file"@, "Path"@, v, span),
                    None => r matches Ok(NetBody::Empty),
                },
            },
        },
{
    let body = record_get(record, "body");
    let body_text = record_get(record, "body_text");
    let body_file = record_get(record, "body_file");
    let count: u32 = (if body.is_some() { 1u32 } else { 0u32 }) + (if body_text.is_some() { 1u32 } else { 0u32 })
        + (if body_file.is_some() { 1u32 } else { 0u32 });
    if count > 1 {
        return Err(RuntimeError::new("net-body", "only one of body, body_text, or body_file can be set").with_span(span));
    }
    if let Some(value) = body {
        return match value {
            Value::Bytes(bytes) => {
                let b = bytes.clone();
                assert(b@ =~= bytes@);
                Ok(NetBody::Bytes(b))
            },
            value => Err(field_type_error_value("body", "Bytes", value, span)),
        };
    }
    if let Some(value) = body_text {
        return match value {
            Value::Str(text) => Ok(NetBody::Bytes(text.as_str().as_bytes_vec())),
            value => Err(field_type_error_value("body_text", "Str", value, span)),
        };
    }
    if let Some(value) = body_file {
        let path = value_to_path(value, "body_file", span)?;
        return Ok(NetBody::File(evaluator.host_path(&path)));
    }
    Ok(NetBody::Empty)
}

} // verus!

verus! {

/// A required string field of record entries.
pub open spec fn entries_str(fields: Seq<(Seq<char>, ValueModel)>, name: Seq<char>, span: Span) -> Result<Seq<char>, ErrorModel> {
    match entries_lookup(fields, name) {
        Some(ValueModel::Str(s)) => Ok(s),
        Some(v) => Err(field_type_error(name, "Str"@, v, span)),
        None => Err(missing_field_error(name, span)),
    }
}

/// The error for a header list of the wrong shape.
pub open spec fn headers_shape_error(span: Span) -> ErrorModel {
    err_model("type-error"@, "headers expected List[Record]"@, Some(span))
}

/// The headers items `i..` describe, after the headers `acc` of the items
/// before them; the first malformed item decides the error.
pub open spec fn headers_from(
    items: Seq<ValueModel>,
    i: nat,
    acc: Seq<(Seq<char>, Seq<char>)>,
    span: Span,
) -> Result<Seq<(Seq<char>, Seq<char>)>, ErrorModel>
    decreases items.len() - i,
{
    if i >= items.len() {
        Ok(acc)
    } else {
        match items[i as int] {
            ValueModel::Record(fields) => match entries_str(fields, "name"@, span) {
                Err(e) => Err(e),
                Ok(name) => match entries_str(fields, "value"@, span) {
                    Err(e) => Err(e),
                    Ok(value) => headers_from(items, i + 1, acc.push((name, value)), span),
                },
            },
            _ => Err(headers_shape_error(span)),
        }
    }
}

pub open spec fn headers_model(h: Seq<NetHeader>) -> Seq<(Seq<char>, Seq<char>)> {
    Seq::new(h.len(), |i: int| (h[i].name@, h[i].value@))
}

/// The headers a request record lists, each a record with `name` and
/// `value` strings.
pub fn record_headers(record: &RecordMap, span: Span) -> (r: Result<Vec<NetHeader>, RuntimeError>)
    ensures
        match field_of(*record, "headers"@) {
            None => r matches Ok(h) && h@.len() == 0,
            Some(ValueModel::List(items)) => match headers_from(items, 0, Seq::empty(), span) {
                Ok(hs) => r matches Ok(h) && headers_model(h@) == hs,
                Err(err) => r matches Err(e) && e@ == err,
            },
            Some(_) => r matches Err(e) && e@ == headers_shape_error(span),
        },
{
    let value = match record_get(record, "headers") {
        None => return Ok(Vec::new()),
        Some(v) => v,
    };
    let items = match value {
        Value::List(items) => items,
        _ => return Err(RuntimeError::new("type-error", "headers expected List[Record]").with_span(span)),
    };
    let ghost m = crate::value::model_list(items@);
    let mut out: Vec<NetHeader> = Vec::new();
    assert(headers_model(out@) =~= Seq::empty());
    let mut i: usize = 0;
    while i < items.len()
        invariant
            m == crate::value::model_list(items@),
            field_of(*record, "headers"@) == Some(ValueModel::List(m)),
            i <= items@.len(),
            headers_from(m, 0, Seq::empty(), span) == headers_from(m, i as nat, headers_model(out@), span),
        decreases items@.len() - i,
    {
        assert(m[i as int] == items@[i as int]@);
        let fields = match &items[i] {
            Value::Record(fields) => fields,
            _ => return Err(RuntimeError::new("type-error", "headers expected List[Record]").with_span(span)),
        };
        let name = record_str(fields, "name", None, span)?;
        let value = record_str(fields, "value", None, span)?;
        let ghost before = headers_model(out@);
        out.push(NetHeader { name, value });
        assert(headers_model(out@) =~= before.push((name@, value@)));
        i = i + 1;
    }
    Ok(out)
}

} // verus!
