//! Runtime values, their mathematical model, and runtime errors.
use vstd::prelude::*;

verus! {

/// A source location: the source file and a byte range in it.
#[derive(Clone, Copy, PartialEq, Eq, Structural, Debug)]
pub struct Span {
    pub source: u32,
    pub start: u32,
    pub end: u32,
}

impl Span {
    pub fn new(source: u32, start: u32, end: u32) -> (s: Span)
        ensures
            s == (Span { source, start, end }),
    {
        Span { source, start, end }
    }
}

/// An error raised while evaluating: a machine-readable kind, a message, and
/// the span it was raised at, once one is attached.
#[derive(Debug)]
pub struct RuntimeError {
    pub kind: String,
    pub message: String,
    pub span: Option<Span>,
}

/// The mathematical content of a runtime error.
pub struct ErrorModel {
    pub kind: Seq<char>,
    pub message: Seq<char>,
    pub span: Option<Span>,
}

impl View for RuntimeError {
    type V = ErrorModel;

    open spec fn view(&self) -> ErrorModel {
        ErrorModel { kind: self.kind@, message: self.message@, span: self.span }
    }
}

/// The error a runtime error with the given kind and message denotes.
pub open spec fn err_model(kind: Seq<char>, message: Seq<char>, span: Option<Span>) -> ErrorModel {
    ErrorModel { kind, message, span }
}

impl RuntimeError {
    /// An error of `kind` with `message` and no span yet.
    pub fn new(kind: &str, message: &str) -> (e: RuntimeError)
        ensures
            e@ == err_model(kind@, message@, None),
    {
        RuntimeError { kind: String::from_str(kind), message: String::from_str(message), span: None }
    }

    /// An error whose message is already an owned string.
    pub fn new_owned(kind: &str, message: String) -> (e: RuntimeError)
        ensures
            e@ == err_model(kind@, message@, None),
    {
        RuntimeError { kind: String::from_str(kind), message, span: None }
    }

    /// The same error, raised at `span`.
    pub fn with_span(self, span: Span) -> (e: RuntimeError)
        ensures
            e@ == err_model(self@.kind, self@.message, Some(span)),
    {
        RuntimeError { kind: self.kind, message: self.message, span: Some(span) }
    }

    pub fn clone_error(&self) -> (e: RuntimeError)
        ensures
            e@ == self@,
    {
        RuntimeError { kind: self.kind.clone(), message: self.message.clone(), span: self.span }
    }
}

/// A structured error value: its kind and message, the family and variant
/// it was constructed as, and the facets it carries.
#[derive(Debug)]
pub struct ErrorValue {
    pub kind: String,
    pub message: String,
    pub family: String,
    pub variant: String,
    pub facets: Vec<String>,
}

/// A stream value: the items already buffered, and, for a live stream, the
/// items its source has still to deliver, first item first.
#[derive(Debug)]
pub struct StreamValue {
    pub items: Vec<Value>,
    pub source: Option<Vec<Value>>,
}

/// A runtime value. Floats are held as their IEEE bit pattern, and handles to
/// host objects (functions, commands, processes, network jobs) by their id.
#[derive(Debug)]
pub enum Value {
    Null,
    Unit,
    Bool(bool),
    Int(i64),
    Float(u64),
    Duration(u64),
    Str(String),
    Bytes(Vec<u8>),
    Path(Vec<u8>),
    Digest { algorithm: String, bytes: Vec<u8> },
    Regex(String),
    List(Vec<Value>),
    Dict(Vec<(String, Value)>),
    Record(Vec<(String, Value)>),
    Module(Vec<(String, Value)>),
    Tag { name: String, fields: Vec<Value> },
    Stream(Box<StreamValue>),
    ResultOk(Box<Value>),
    ResultErr(Box<Value>),
    /// A process status: whether it succeeded, its kind in lower case, and
    /// the records of its pipeline segments.
    Status { success: bool, kind: String, segments: Vec<Value> },
    EnvPathList,
    Error(Box<ErrorValue>),
    RunError { kind: String, message: String },
    Pure(u32),
    Proc(u32),
    Command(u32),
    /// A spawned process: its id, the command it ran and its arguments, and
    /// whether it runs detached.
    ProcessHandle { pid: i64, command: String, argv: Vec<String>, detached: bool },
    NetJob(u32),
}

/// The mathematical model of a value: strings as character sequences, bytes
/// as byte sequences, containers as sequences of models.
pub enum ValueModel {
    Null,
    Unit,
    Bool(bool),
    Int(i64),
    Float(u64),
    Duration(u64),
    Str(Seq<char>),
    Bytes(Seq<u8>),
    Path(Seq<u8>),
    Digest { algorithm: Seq<char>, bytes: Seq<u8> },
    Regex(Seq<char>),
    List(Seq<ValueModel>),
    Dict(Seq<(Seq<char>, ValueModel)>),
    Record(Seq<(Seq<char>, ValueModel)>),
    Module(Seq<(Seq<char>, ValueModel)>),
    Tag { name: Seq<char>, fields: Seq<ValueModel> },
    Stream { items: Seq<ValueModel>, source: Option<Seq<ValueModel>> },
    ResultOk(Box<ValueModel>),
    ResultErr(Box<ValueModel>),
    Status { success: bool, kind: Seq<char>, segments: Seq<ValueModel> },
    EnvPathList,
    Error { kind: Seq<char>, message: Seq<char>, family: Seq<char>, variant: Seq<char>, facets: Seq<Seq<char>> },
    RunError { kind: Seq<char>, message: Seq<char> },
    Pure(u32),
    Proc(u32),
    Command(u32),
    ProcessHandle { pid: i64, command: Seq<char>, argv: Seq<Seq<char>>, detached: bool },
    NetJob(u32),
}

pub open spec fn model_list(s: Seq<Value>) -> Seq<ValueModel>
    decreases s,
{
    Seq::new(s.len(), |i: int| if 0 <= i < s.len() { model_of(s[i]) } else { ValueModel::Null })
}

pub open spec fn model_entries(s: Seq<(String, Value)>) -> Seq<(Seq<char>, ValueModel)>
    decreases s,
{
    Seq::new(
        s.len(),
        |i: int|
            if 0 <= i < s.len() {
                (s[i].0@, model_of(s[i].1))
            } else {
                (Seq::empty(), ValueModel::Null)
            },
    )
}

pub open spec fn model_strings(s: Seq<String>) -> Seq<Seq<char>> {
    Seq::new(s.len(), |i: int| s[i]@)
}

/// The model of a value.
pub open spec fn model_of(v: Value) -> ValueModel
    decreases v,
{
    match v {
        Value::Null => ValueModel::Null,
        Value::Unit => ValueModel::Unit,
        Value::Bool(b) => ValueModel::Bool(b),
        Value::Int(n) => ValueModel::Int(n),
        Value::Float(bits) => ValueModel::Float(bits),
        Value::Duration(ms) => ValueModel::Duration(ms),
        Value::Str(s) => ValueModel::Str(s@),
        Value::Bytes(b) => ValueModel::Bytes(b@),
        Value::Path(b) => ValueModel::Path(b@),
        Value::Digest { algorithm, bytes } => ValueModel::Digest { algorithm: algorithm@, bytes: bytes@ },
        Value::Regex(p) => ValueModel::Regex(p@),
        Value::List(items) => ValueModel::List(model_list(items@)),
        Value::Dict(entries) => ValueModel::Dict(model_entries(entries@)),
        Value::Record(entries) => ValueModel::Record(model_entries(entries@)),
        Value::Module(entries) => ValueModel::Module(model_entries(entries@)),
        Value::Tag { name, fields } => ValueModel::Tag { name: name@, fields: model_list(fields@) },
        Value::Stream(stream) => ValueModel::Stream {
            items: model_list(stream.items@),
            source: match stream.source {
                Some(rest) => Some(model_list(rest@)),
                None => None,
            },
        },
        Value::ResultOk(inner) => ValueModel::ResultOk(Box::new(model_of(*inner))),
        Value::ResultErr(inner) => ValueModel::ResultErr(Box::new(model_of(*inner))),
        Value::Status { success, kind, segments } =>
            ValueModel::Status { success, kind: kind@, segments: model_list(segments@) },
        Value::EnvPathList => ValueModel::EnvPathList,
        Value::Error(e) => ValueModel::Error {
            kind: e.kind@,
            message: e.message@,
            family: e.family@,
            variant: e.variant@,
            facets: model_strings(e.facets@),
        },
        Value::RunError { kind, message } => ValueModel::RunError { kind: kind@, message: message@ },
        Value::Pure(id) => ValueModel::Pure(id),
        Value::Proc(id) => ValueModel::Proc(id),
        Value::Command(id) => ValueModel::Command(id),
        Value::ProcessHandle { pid, command, argv, detached } =>
            ValueModel::ProcessHandle { pid, command: command@, argv: model_strings(argv@), detached },
        Value::NetJob(id) => ValueModel::NetJob(id),
    }
}

impl View for Value {
    type V = ValueModel;

    open spec fn view(&self) -> ValueModel {
        model_of(*self)
    }
}

} // verus!

verus! {

/// The name of a value's type.
pub open spec fn spec_type_name(v: ValueModel) -> Seq<char> {
    match v {
        ValueModel::Null => "Null"@,
        ValueModel::Unit => "Unit"@,
        ValueModel::Bool(_) => "Bool"@,
        ValueModel::Int(_) => "Int"@,
        ValueModel::Float(_) => "Float"@,
        ValueModel::Duration(_) => "Duration"@,
        ValueModel::Str(_) => "Str"@,
        ValueModel::Bytes(_) => "Bytes"@,
        ValueModel::Path(_) => "Path"@,
        ValueModel::Digest { .. } => "Digest"@,
        ValueModel::Regex(_) => "Regex"@,
        ValueModel::List(_) => "List"@,
        ValueModel::Dict(_) => "Map"@,
        ValueModel::Record(_) => "Record"@,
        ValueModel::Module(_) => "Module"@,
        ValueModel::Tag { .. } => "Tag"@,
        ValueModel::Stream { .. } => "Stream"@,
        ValueModel::ResultOk(_) | ValueModel::ResultErr(_) => "Result"@,
        ValueModel::Status { .. } => "Status"@,
        ValueModel::EnvPathList => "EnvPathList"@,
        ValueModel::Error { .. } => "Error"@,
        ValueModel::RunError { .. } => "ProcessError"@,
        ValueModel::Pure(_) => "Pure"@,
        ValueModel::Proc(_) => "Proc"@,
        ValueModel::Command(_) => "Command"@,
        ValueModel::ProcessHandle { .. } => "ProcessHandle"@,
        ValueModel::NetJob(_) => "NetJob"@,
    }
}

impl Value {
    /// The name of this value's type.
    pub fn type_label(&self) -> (name: &'static str)
        ensures
            name@ == spec_type_name(self@),
    {
        match self {
            Value::Null => "Null",
            Value::Unit => "Unit",
            Value::Bool(_) => "Bool",
            Value::Int(_) => "Int",
            Value::Float(_) => "Float",
            Value::Duration(_) => "Duration",
            Value::Str(_) => "Str",
            Value::Bytes(_) => "Bytes",
            Value::Path(_) => "Path",
            Value::Digest { .. } => "Digest",
            Value::Regex(_) => "Regex",
            Value::List(_) => "List",
            Value::Dict(_) => "Map",
            Value::Record(_) => "Record",
            Value::Module(_) => "Module",
            Value::Tag { .. } => "Tag",
            Value::Stream(_) => "Stream",
            Value::ResultOk(_) | Value::ResultErr(_) => "Result",
            Value::Status { .. } => "Status",
            Value::EnvPathList => "EnvPathList",
            Value::Error(_) => "Error",
            Value::RunError { .. } => "ProcessError",
            Value::Pure(_) => "Pure",
            Value::Proc(_) => "Proc",
            Value::Command(_) => "Command",
            Value::ProcessHandle { .. } => "ProcessHandle",
            Value::NetJob(_) => "NetJob",
        }
    }
}

/// The value the first entry named `name` holds.
pub open spec fn entries_lookup(entries: Seq<(Seq<char>, ValueModel)>, name: Seq<char>) -> Option<ValueModel>
    decreases entries.len(),
{
    if entries.len() == 0 {
        None
    } else if entries[0].0 == name {
        Some(entries[0].1)
    } else {
        entries_lookup(entries.drop_first(), name)
    }
}

pub proof fn lemma_lookup_skip(e: Seq<(Seq<char>, ValueModel)>, i: int, name: Seq<char>)
    requires
        0 <= i < e.len(),
    ensures
        e[i].0 == name ==> entries_lookup(e.skip(i), name) == Some(e[i].1),
        e[i].0 != name ==> entries_lookup(e.skip(i), name) == entries_lookup(e.skip(i + 1), name),
{
    assert(e.skip(i).drop_first() =~= e.skip(i + 1));
    assert(e.skip(i)[0] == e[i]);
}

/// A record's entries, as stored: name and value.
pub type RecordMap = Vec<(String, Value)>;

/// The value a record holds under `name`.
pub fn record_get<'a>(record: &'a RecordMap, name: &str) -> (r: Option<&'a Value>)
    ensures
        match r {
            Some(v) => entries_lookup(model_entries(record@), name@) == Some(v@),
            None => entries_lookup(model_entries(record@), name@) is None,
        },
{
    let ghost e = model_entries(record@);
    let key = String::from_str(name);
    let mut i: usize = 0;
    assert(e.skip(0) =~= e);
    while i < record.len()
        invariant
            e == model_entries(record@),
            key@ == name@,
            i <= record@.len(),
            entries_lookup(e, name@) == entries_lookup(e.skip(i as int), name@),
        decreases record@.len() - i,
    {
        proof { lemma_lookup_skip(e, i as int, name@); }
        if record[i].0 == key {
            return Some(&record[i].1);
        }
        i = i + 1;
    }
    None
}

} // verus!

verus! {

/// Copies a list of values.
pub fn clone_values(items: &Vec<Value>) -> (r: Vec<Value>)
    ensures
        model_list(r@) == model_list(items@),
    decreases items, 0nat,
{
    let mut out: Vec<Value> = Vec::new();
    let mut i: usize = 0;
    while i < items.len()
        invariant
            i <= items@.len(),
            out@.len() == i,
            forall|k: int| 0 <= k < i ==> model_of(#[trigger] out@[k]) == model_of(items@[k]),
        decreases items@.len() - i,
    {
        proof { vstd::std_specs::vec::axiom_vec_index_decreases(*items, i as int); }
        let c = clone_value(&items[i]);
        out.push(c);
        i = i + 1;
    }
    assert(model_list(out@) =~= model_list(items@));
    out
}

/// Copies a list of named entries.
pub fn clone_entries(entries: &Vec<(String, Value)>) -> (r: Vec<(String, Value)>)
    ensures
        model_entries(r@) == model_entries(entries@),
    decreases entries, 0nat,
{
    let mut out: Vec<(String, Value)> = Vec::new();
    let mut i: usize = 0;
    while i < entries.len()
        invariant
            i <= entries@.len(),
            out@.len() == i,
            forall|k: int| 0 <= k < i ==> (#[trigger] out@[k]).0@ == entries@[k].0@
                && model_of(out@[k].1) == model_of(entries@[k].1),
        decreases entries@.len() - i,
    {
        proof { vstd::std_specs::vec::axiom_vec_index_decreases(*entries, i as int); }
        let c = clone_value(&entries[i].1);
        out.push((entries[i].0.clone(), c));
        i = i + 1;
    }
    assert(model_entries(out@) =~= model_entries(entries@));
    out
}

/// Copies a value.
pub fn clone_value(v: &Value) -> (r: Value)
    ensures
        r@ == v@,
    decreases v, 1nat,
{
    match v {
        Value::Null => Value::Null,
        Value::Unit => Value::Unit,
        Value::Bool(b) => Value::Bool(*b),
        Value::Int(n) => Value::Int(*n),
        Value::Float(b) => Value::Float(*b),
        Value::Duration(d) => Value::Duration(*d),
        Value::Str(s) => Value::Str(s.clone()),
        Value::Bytes(b) => {
            let c = b.clone();
            assert(c@ =~= b@);
            Value::Bytes(c)
        },
        Value::Path(b) => {
            let c = b.clone();
            assert(c@ =~= b@);
            Value::Path(c)
        },
        Value::Digest { algorithm, bytes } => {
            let c = bytes.clone();
            assert(c@ =~= bytes@);
            Value::Digest { algorithm: algorithm.clone(), bytes: c }
        },
        Value::Regex(p) => Value::Regex(p.clone()),
        Value::List(items) => Value::List(clone_values(items)),
        Value::Dict(e) => Value::Dict(clone_entries(e)),
        Value::Record(e) => Value::Record(clone_entries(e)),
        Value::Module(e) => Value::Module(clone_entries(e)),
        Value::Tag { name, fields } => Value::Tag { name: name.clone(), fields: clone_values(fields) },
        Value::Stream(stream) => {
            let items = clone_values(&stream.items);
            let source = match &stream.source {
                Some(s) => Some(clone_values(s)),
                None => None,
            };
            Value::Stream(Box::new(StreamValue { items, source }))
        },
        Value::ResultOk(inner) => Value::ResultOk(Box::new(clone_value(inner))),
        Value::ResultErr(inner) => Value::ResultErr(Box::new(clone_value(inner))),
        Value::Status { success, kind, segments } =>
            Value::Status { success: *success, kind: kind.clone(), segments: clone_values(segments) },
        Value::EnvPathList => Value::EnvPathList,
        Value::Error(e) => {
            let mut facets: Vec<String> = Vec::new();
            let mut i: usize = 0;
            while i < e.facets.len()
                invariant
                    i <= e.facets@.len(),
                    facets@.len() == i,
                    forall|k: int| 0 <= k < i ==> facets@[k]@ == e.facets@[k]@,
                decreases e.facets@.len() - i,
            {
                facets.push(e.facets[i].clone());
                i = i + 1;
            }
            assert(model_strings(facets@) =~= model_strings(e.facets@));
            Value::Error(Box::new(ErrorValue {
                kind: e.kind.clone(),
                message: e.message.clone(),
                family: e.family.clone(),
                variant: e.variant.clone(),
                facets,
            }))
        },
        Value::RunError { kind, message } => Value::RunError { kind: kind.clone(), message: message.clone() },
        Value::Pure(id) => Value::Pure(*id),
        Value::Proc(id) => Value::Proc(*id),
        Value::Command(id) => Value::Command(*id),
        Value::ProcessHandle { pid, command, argv, detached } => Value::ProcessHandle {
            pid: *pid, command: command.clone(), argv: clone_strings(argv), detached: *detached },
        Value::NetJob(id) => Value::NetJob(*id),
    }
}

} // verus!

verus! {

/// Whether two lists of values are equal.
pub fn lists_equal(a: &Vec<Value>, b: &Vec<Value>) -> (r: bool)
    ensures
        r == (model_list(a@) == model_list(b@)),
    decreases a, 0nat,
{
    if a.len() != b.len() {
        assert(model_list(a@).len() != model_list(b@).len());
        return false;
    }
    let mut i: usize = 0;
    while i < a.len()
        invariant
            a@.len() == b@.len(),
            i <= a@.len(),
            forall|k: int| 0 <= k < i ==> model_of(a@[k]) == model_of(b@[k]),
        decreases a@.len() - i,
    {
        proof { vstd::std_specs::vec::axiom_vec_index_decreases(*a, i as int); }
        if !values_equal(&a[i], &b[i]) {
            assert(model_list(a@)[i as int] != model_list(b@)[i as int]);
            return false;
        }
        i = i + 1;
    }
    assert(model_list(a@) =~= model_list(b@));
    true
}

/// Whether two lists of named entries are equal.
pub fn entries_equal(a: &Vec<(String, Value)>, b: &Vec<(String, Value)>) -> (r: bool)
    ensures
        r == (model_entries(a@) == model_entries(b@)),
    decreases a, 0nat,
{
    if a.len() != b.len() {
        assert(model_entries(a@).len() != model_entries(b@).len());
        return false;
    }
    let mut i: usize = 0;
    while i < a.len()
        invariant
            a@.len() == b@.len(),
            i <= a@.len(),
            forall|k: int| 0 <= k < i ==> a@[k].0@ == b@[k].0@ && model_of(a@[k].1) == model_of(b@[k].1),
        decreases a@.len() - i,
    {
        proof { vstd::std_specs::vec::axiom_vec_index_decreases(*a, i as int); }
        if a[i].0 != b[i].0 || !values_equal(&a[i].1, &b[i].1) {
            assert(model_entries(a@)[i as int] != model_entries(b@)[i as int]);
            return false;
        }
        i = i + 1;
    }
    assert(model_entries(a@) =~= model_entries(b@));
    true
}

/// Whether two byte lists are equal.
pub fn bytes_equal(a: &Vec<u8>, b: &Vec<u8>) -> (r: bool)
    ensures
        r == (a@ == b@),
{
    if a.len() != b.len() {
        return false;
    }
    let mut i: usize = 0;
    while i < a.len()
        invariant
            a@.len() == b@.len(),
            i <= a@.len(),
            forall|k: int| 0 <= k < i ==> a@[k] == b@[k],
        decreases a@.len() - i,
    {
        if a[i] != b[i] {
            return false;
        }
        i = i + 1;
    }
    assert(a@ =~= b@);
    true
}

/// A copy of a list of strings.
pub fn clone_strings(a: &Vec<String>) -> (r: Vec<String>)
    ensures
        model_strings(r@) == model_strings(a@),
{
    let mut out: Vec<String> = Vec::new();
    let mut i: usize = 0;
    while i < a.len()
        invariant
            i <= a@.len(),
            out@.len() == i,
            forall|k: int| 0 <= k < i ==> out@[k]@ == a@[k]@,
        decreases a@.len() - i,
    {
        out.push(a[i].clone());
        i = i + 1;
    }
    assert(model_strings(out@) =~= model_strings(a@));
    out
}

/// Whether two lists of strings are equal.
pub fn strings_equal(a: &Vec<String>, b: &Vec<String>) -> (r: bool)
    ensures
        r == (model_strings(a@) == model_strings(b@)),
{
    if a.len() != b.len() {
        assert(model_strings(a@).len() != model_strings(b@).len());
        return false;
    }
    let mut i: usize = 0;
    while i < a.len()
        invariant
            a@.len() == b@.len(),
            i <= a@.len(),
            forall|k: int| 0 <= k < i ==> a@[k]@ == b@[k]@,
        decreases a@.len() - i,
    {
        if a[i] != b[i] {
            assert(model_strings(a@)[i as int] != model_strings(b@)[i as int]);
            return false;
        }
        i = i + 1;
    }
    assert(model_strings(a@) =~= model_strings(b@));
    true
}

/// Whether two values are equal.
pub fn values_equal(a: &Value, b: &Value) -> (r: bool)
    ensures
        r == (a@ == b@),
    decreases a, 1nat,
{
    match (a, b) {
        (Value::Null, Value::Null) => true,
        (Value::Unit, Value::Unit) => true,
        (Value::Bool(x), Value::Bool(y)) => *x == *y,
        (Value::Int(x), Value::Int(y)) => *x == *y,
        (Value::Float(x), Value::Float(y)) => *x == *y,
        (Value::Duration(x), Value::Duration(y)) => *x == *y,
        (Value::Str(x), Value::Str(y)) => *x == *y,
        (Value::Bytes(x), Value::Bytes(y)) => bytes_equal(x, y),
        (Value::Path(x), Value::Path(y)) => bytes_equal(x, y),
        (Value::Digest { algorithm: a1, bytes: b1 }, Value::Digest { algorithm: a2, bytes: b2 }) =>
            *a1 == *a2 && bytes_equal(b1, b2),
        (Value::Regex(x), Value::Regex(y)) => *x == *y,
        (Value::List(x), Value::List(y)) => lists_equal(x, y),
        (Value::Dict(x), Value::Dict(y)) => entries_equal(x, y),
        (Value::Record(x), Value::Record(y)) => entries_equal(x, y),
        (Value::Module(x), Value::Module(y)) => entries_equal(x, y),
        (Value::Tag { name: n1, fields: f1 }, Value::Tag { name: n2, fields: f2 }) =>
            *n1 == *n2 && lists_equal(f1, f2),
        (Value::Stream(s1), Value::Stream(s2)) =>
            lists_equal(&s1.items, &s2.items) && match (&s1.source, &s2.source) {
                (Some(x), Some(y)) => lists_equal(x, y),
                (None, None) => true,
                _ => false,
            },
        (Value::ResultOk(x), Value::ResultOk(y)) => values_equal(x, y),
        (Value::ResultErr(x), Value::ResultErr(y)) => values_equal(x, y),
        (Value::Status { success: s1, kind: k1, segments: g1 }, Value::Status { success: s2, kind: k2, segments: g2 }) =>
            *s1 == *s2 && *k1 == *k2 && lists_equal(g1, g2),
        (Value::EnvPathList, Value::EnvPathList) => true,
        (Value::Error(e1), Value::Error(e2)) =>
            e1.kind == e2.kind && e1.message == e2.message && e1.family == e2.family
                && e1.variant == e2.variant && strings_equal(&e1.facets, &e2.facets),
        (Value::RunError { kind: k1, message: m1 }, Value::RunError { kind: k2, message: m2 }) =>
            *k1 == *k2 && *m1 == *m2,
        (Value::Pure(x), Value::Pure(y)) => *x == *y,
        (Value::Proc(x), Value::Proc(y)) => *x == *y,
        (Value::Command(x), Value::Command(y)) => *x == *y,
        (Value::ProcessHandle { pid: p1, command: c1, argv: a1, detached: d1 },
            Value::ProcessHandle { pid: p2, command: c2, argv: a2, detached: d2 }) =>
            *p1 == *p2 && *c1 == *c2 && strings_equal(a1, a2) && *d1 == *d2,
        (Value::NetJob(x), Value::NetJob(y)) => *x == *y,
        _ => false,
    }
}

} // verus!
