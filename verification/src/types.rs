//! Static types as contracts and tests name them, and which values they admit.
use vstd::prelude::*;
use vstd::string::*;
use crate::value::{Value, ValueModel, model_list};
use crate::text::str_eq;

verus! {

/// The builtin type names a contract may use.
#[derive(Clone, Copy, PartialEq, Eq, Structural, Debug)]
pub enum BuiltinTypeName {
    Any,
    Unknown,
    Null,
    Bool,
    Int,
    UInt,
    Float,
    Duration,
    Str,
    Bytes,
    Digest,
    Regex,
    Path,
    Dict,
    Module,
    Record,
    Status,
    EnvPathList,
    Error,
    ProcessError,
    Pure,
    Proc,
    Command,
    ProcessHandle,
    NetJob,
    Result,
    Unit,
}

/// The builtin type a name spells, if any.
pub open spec fn builtin_of(text: Seq<char>) -> Option<BuiltinTypeName> {
    if text == "Any"@ { Some(BuiltinTypeName::Any) }
    else if text == "Unknown"@ { Some(BuiltinTypeName::Unknown) }
    else if text == "Null"@ { Some(BuiltinTypeName::Null) }
    else if text == "Bool"@ { Some(BuiltinTypeName::Bool) }
    else if text == "Int"@ { Some(BuiltinTypeName::Int) }
    else if text == "UInt"@ { Some(BuiltinTypeName::UInt) }
    else if text == "Float"@ { Some(BuiltinTypeName::Float) }
    else if text == "Duration"@ { Some(BuiltinTypeName::Duration) }
    else if text == "Str"@ { Some(BuiltinTypeName::Str) }
    else if text == "Bytes"@ { Some(BuiltinTypeName::Bytes) }
    else if text == "Digest"@ { Some(BuiltinTypeName::Digest) }
    else if text == "Regex"@ { Some(BuiltinTypeName::Regex) }
    else if text == "Path"@ { Some(BuiltinTypeName::Path) }
    else if text == "Map"@ { Some(BuiltinTypeName::Dict) }
    else if text == "Module"@ { Some(BuiltinTypeName::Module) }
    else if text == "Record"@ { Some(BuiltinTypeName::Record) }
    else if text == "Status"@ { Some(BuiltinTypeName::Status) }
    else if text == "EnvPathList"@ { Some(BuiltinTypeName::EnvPathList) }
    else if text == "Error"@ { Some(BuiltinTypeName::Error) }
    else if text == "ProcessError"@ { Some(BuiltinTypeName::ProcessError) }
    else if text == "Pure"@ { Some(BuiltinTypeName::Pure) }
    else if text == "Proc"@ { Some(BuiltinTypeName::Proc) }
    else if text == "Command"@ { Some(BuiltinTypeName::Command) }
    else if text == "ProcessHandle"@ { Some(BuiltinTypeName::ProcessHandle) }
    else if text == "NetJob"@ { Some(BuiltinTypeName::NetJob) }
    else if text == "Result"@ { Some(BuiltinTypeName::Result) }
    else if text == "Unit"@ { Some(BuiltinTypeName::Unit) }
    else { None }
}

impl BuiltinTypeName {
    /// The builtin type a name spells, if any.
    pub fn parse(text: &str) -> (r: Option<BuiltinTypeName>)
        ensures
            r == builtin_of(text@),
    {
        if str_eq(text, "Any") { Some(BuiltinTypeName::Any) }
        else if str_eq(text, "Unknown") { Some(BuiltinTypeName::Unknown) }
        else if str_eq(text, "Null") { Some(BuiltinTypeName::Null) }
        else if str_eq(text, "Bool") { Some(BuiltinTypeName::Bool) }
        else if str_eq(text, "Int") { Some(BuiltinTypeName::Int) }
        else if str_eq(text, "UInt") { Some(BuiltinTypeName::UInt) }
        else if str_eq(text, "Float") { Some(BuiltinTypeName::Float) }
        else if str_eq(text, "Duration") { Some(BuiltinTypeName::Duration) }
        else if str_eq(text, "Str") { Some(BuiltinTypeName::Str) }
        else if str_eq(text, "Bytes") { Some(BuiltinTypeName::Bytes) }
        else if str_eq(text, "Digest") { Some(BuiltinTypeName::Digest) }
        else if str_eq(text, "Regex") { Some(BuiltinTypeName::Regex) }
        else if str_eq(text, "Path") { Some(BuiltinTypeName::Path) }
        else if str_eq(text, "Map") { Some(BuiltinTypeName::Dict) }
        else if str_eq(text, "Module") { Some(BuiltinTypeName::Module) }
        else if str_eq(text, "Record") { Some(BuiltinTypeName::Record) }
        else if str_eq(text, "Status") { Some(BuiltinTypeName::Status) }
        else if str_eq(text, "EnvPathList") { Some(BuiltinTypeName::EnvPathList) }
        else if str_eq(text, "Error") { Some(BuiltinTypeName::Error) }
        else if str_eq(text, "ProcessError") { Some(BuiltinTypeName::ProcessError) }
        else if str_eq(text, "Pure") { Some(BuiltinTypeName::Pure) }
        else if str_eq(text, "Proc") { Some(BuiltinTypeName::Proc) }
        else if str_eq(text, "Command") { Some(BuiltinTypeName::Command) }
        else if str_eq(text, "ProcessHandle") { Some(BuiltinTypeName::ProcessHandle) }
        else if str_eq(text, "NetJob") { Some(BuiltinTypeName::NetJob) }
        else if str_eq(text, "Result") { Some(BuiltinTypeName::Result) }
        else if str_eq(text, "Unit") { Some(BuiltinTypeName::Unit) }
        else { None }
    }
}

/// Whether a value is of a builtin type.
pub open spec fn value_is_builtin(v: ValueModel, builtin: BuiltinTypeName) -> bool {
    match builtin {
        BuiltinTypeName::Any => true,
        BuiltinTypeName::Unknown => false,
        BuiltinTypeName::Null => v is Null,
        BuiltinTypeName::Bool => v is Bool,
        BuiltinTypeName::Int => v is Int,
        BuiltinTypeName::UInt => v matches ValueModel::Int(n) && n >= 0,
        BuiltinTypeName::Float => v is Float,
        BuiltinTypeName::Duration => v is Duration,
        BuiltinTypeName::Str => v is Str,
        BuiltinTypeName::Bytes => v is Bytes,
        BuiltinTypeName::Digest => v is Digest,
        BuiltinTypeName::Regex => v is Regex,
        BuiltinTypeName::Path => v is Path,
        BuiltinTypeName::Dict => v is Dict,
        BuiltinTypeName::Module => v is Module,
        BuiltinTypeName::Record => v is Record,
        BuiltinTypeName::Status => v is Status,
        BuiltinTypeName::EnvPathList => v is EnvPathList,
        BuiltinTypeName::Error => v is Error,
        BuiltinTypeName::ProcessError => v is RunError,
        BuiltinTypeName::Pure => v is Pure,
        BuiltinTypeName::Proc => v is Proc,
        BuiltinTypeName::Command => v is Command,
        BuiltinTypeName::ProcessHandle => v is ProcessHandle,
        BuiltinTypeName::NetJob => v is NetJob,
        BuiltinTypeName::Result => v is ResultOk || v is ResultErr,
        BuiltinTypeName::Unit => v is Unit,
    }
}

/// Whether a value is of a builtin type.
pub fn module_value_matches_builtin_type(value: &Value, builtin: BuiltinTypeName) -> (r: bool)
    ensures
        r == value_is_builtin(value@, builtin),
{
    match builtin {
        BuiltinTypeName::Any => true,
        BuiltinTypeName::Unknown => false,
        BuiltinTypeName::Null => matches!(value, Value::Null),
        BuiltinTypeName::Bool => matches!(value, Value::Bool(_)),
        BuiltinTypeName::Int => matches!(value, Value::Int(_)),
        BuiltinTypeName::UInt => match value { Value::Int(n) => *n >= 0, _ => false },
        BuiltinTypeName::Float => matches!(value, Value::Float(_)),
        BuiltinTypeName::Duration => matches!(value, Value::Duration(_)),
        BuiltinTypeName::Str => matches!(value, Value::Str(_)),
        BuiltinTypeName::Bytes => matches!(value, Value::Bytes(_)),
        BuiltinTypeName::Digest => matches!(value, Value::Digest { .. }),
        BuiltinTypeName::Regex => matches!(value, Value::Regex(_)),
        BuiltinTypeName::Path => matches!(value, Value::Path(_)),
        BuiltinTypeName::Dict => matches!(value, Value::Dict(_)),
        BuiltinTypeName::Module => matches!(value, Value::Module(_)),
        BuiltinTypeName::Record => matches!(value, Value::Record(_)),
        BuiltinTypeName::Status => matches!(value, Value::Status { .. }),
        BuiltinTypeName::EnvPathList => matches!(value, Value::EnvPathList),
        BuiltinTypeName::Error => matches!(value, Value::Error(_)),
        BuiltinTypeName::ProcessError => matches!(value, Value::RunError { .. }),
        BuiltinTypeName::Pure => matches!(value, Value::Pure(_)),
        BuiltinTypeName::Proc => matches!(value, Value::Proc(_)),
        BuiltinTypeName::Command => matches!(value, Value::Command(_)),
        BuiltinTypeName::ProcessHandle => matches!(value, Value::ProcessHandle { .. }),
        BuiltinTypeName::NetJob => matches!(value, Value::NetJob(_)),
        BuiltinTypeName::Result => matches!(value, Value::ResultOk(_) | Value::ResultErr(_)),
        BuiltinTypeName::Unit => matches!(value, Value::Unit),
    }
}

/// A static type.
#[derive(Debug)]
pub enum Type {
    Any,
    Unknown,
    Invalid,
    Null,
    Bool,
    Int,
    Float,
    Duration,
    Str,
    Bytes,
    Digest,
    Regex,
    Path,
    List(Box<Type>),
    Dict(Box<Type>),
    Stream(Box<Type>),
    Record(Vec<(String, Type)>),
    Module(Vec<(String, Type)>),
    Result(Box<Type>, Box<Type>),
    Status,
    EnvPathList,
    Error,
    ErrorFamily(String),
    ErrorVariant { family: String, variant: String },
    ErrorFacet(String),
    ProcessError,
    Pure,
    Proc,
    Command,
    ProcessHandle,
    NetJob,
    Unit,
    Tag(String),
    Optional(Box<Type>),
}

/// The mathematical content of a static type.
pub enum TypeModel {
    Any,
    Unknown,
    Invalid,
    Null,
    Bool,
    Int,
    Float,
    Duration,
    Str,
    Bytes,
    Digest,
    Regex,
    Path,
    List(Box<TypeModel>),
    Dict(Box<TypeModel>),
    Stream(Box<TypeModel>),
    Record(Seq<(Seq<char>, TypeModel)>),
    Module(Seq<(Seq<char>, TypeModel)>),
    Result(Box<TypeModel>, Box<TypeModel>),
    Status,
    EnvPathList,
    Error,
    ErrorFamily(Seq<char>),
    ErrorVariant { family: Seq<char>, variant: Seq<char> },
    ErrorFacet(Seq<char>),
    ProcessError,
    Pure,
    Proc,
    Command,
    ProcessHandle,
    NetJob,
    Unit,
    Tag(Seq<char>),
    Optional(Box<TypeModel>),
}

pub open spec fn type_fields_model(s: Seq<(String, Type)>) -> Seq<(Seq<char>, TypeModel)>
    decreases s,
{
    Seq::new(s.len(), |i: int| if 0 <= i < s.len() { (s[i].0@, type_model(s[i].1)) } else { (Seq::empty(), TypeModel::Any) })
}

pub open spec fn type_model(t: Type) -> TypeModel
    decreases t,
{
    match t {
        Type::Any => TypeModel::Any,
        Type::Unknown => TypeModel::Unknown,
        Type::Invalid => TypeModel::Invalid,
        Type::Null => TypeModel::Null,
        Type::Bool => TypeModel::Bool,
        Type::Int => TypeModel::Int,
        Type::Float => TypeModel::Float,
        Type::Duration => TypeModel::Duration,
        Type::Str => TypeModel::Str,
        Type::Bytes => TypeModel::Bytes,
        Type::Digest => TypeModel::Digest,
        Type::Regex => TypeModel::Regex,
        Type::Path => TypeModel::Path,
        Type::List(inner) => TypeModel::List(Box::new(type_model(*inner))),
        Type::Dict(inner) => TypeModel::Dict(Box::new(type_model(*inner))),
        Type::Stream(inner) => TypeModel::Stream(Box::new(type_model(*inner))),
        Type::Record(fields) => TypeModel::Record(type_fields_model(fields@)),
        Type::Module(fields) => TypeModel::Module(type_fields_model(fields@)),
        Type::Result(ok, err) => TypeModel::Result(Box::new(type_model(*ok)), Box::new(type_model(*err))),
        Type::Status => TypeModel::Status,
        Type::EnvPathList => TypeModel::EnvPathList,
        Type::Error => TypeModel::Error,
        Type::ErrorFamily(f) => TypeModel::ErrorFamily(f@),
        Type::ErrorVariant { family, variant } => TypeModel::ErrorVariant { family: family@, variant: variant@ },
        Type::ErrorFacet(f) => TypeModel::ErrorFacet(f@),
        Type::ProcessError => TypeModel::ProcessError,
        Type::Pure => TypeModel::Pure,
        Type::Proc => TypeModel::Proc,
        Type::Command => TypeModel::Command,
        Type::ProcessHandle => TypeModel::ProcessHandle,
        Type::NetJob => TypeModel::NetJob,
        Type::Unit => TypeModel::Unit,
        Type::Tag(n) => TypeModel::Tag(n@),
        Type::Optional(inner) => TypeModel::Optional(Box::new(type_model(*inner))),
    }
}

impl View for Type {
    type V = TypeModel;

    open spec fn view(&self) -> TypeModel {
        type_model(*self)
    }
}

/// The type a plain name denotes; `Unknown` for any other name.
pub open spec fn type_of_name(text: Seq<char>) -> TypeModel {
    if text == "Any"@ { TypeModel::Any }
    else if text == "Null"@ { TypeModel::Null }
    else if text == "Bool"@ { TypeModel::Bool }
    else if text == "Int"@ { TypeModel::Int }
    else if text == "Float"@ { TypeModel::Float }
    else if text == "Duration"@ { TypeModel::Duration }
    else if text == "Str"@ { TypeModel::Str }
    else if text == "Bytes"@ { TypeModel::Bytes }
    else if text == "Digest"@ { TypeModel::Digest }
    else if text == "Regex"@ { TypeModel::Regex }
    else if text == "Path"@ { TypeModel::Path }
    else if text == "Status"@ { TypeModel::Status }
    else if text == "EnvPathList"@ { TypeModel::EnvPathList }
    else if text == "Error"@ { TypeModel::Error }
    else if text == "ProcessError"@ { TypeModel::ProcessError }
    else if text == "Pure"@ { TypeModel::Pure }
    else if text == "Proc"@ { TypeModel::Proc }
    else if text == "Command"@ { TypeModel::Command }
    else if text == "ProcessHandle"@ { TypeModel::ProcessHandle }
    else if text == "NetJob"@ { TypeModel::NetJob }
    else if text == "Unit"@ { TypeModel::Unit }
    else { TypeModel::Unknown }
}

impl Type {
    /// The type a plain name denotes.
    pub fn from_name(text: &str) -> (t: Type)
        ensures
            t@ == type_of_name(text@),
    {
        if str_eq(text, "Any") { Type::Any }
        else if str_eq(text, "Null") { Type::Null }
        else if str_eq(text, "Bool") { Type::Bool }
        else if str_eq(text, "Int") { Type::Int }
        else if str_eq(text, "Float") { Type::Float }
        else if str_eq(text, "Duration") { Type::Duration }
        else if str_eq(text, "Str") { Type::Str }
        else if str_eq(text, "Bytes") { Type::Bytes }
        else if str_eq(text, "Digest") { Type::Digest }
        else if str_eq(text, "Regex") { Type::Regex }
        else if str_eq(text, "Path") { Type::Path }
        else if str_eq(text, "Status") { Type::Status }
        else if str_eq(text, "EnvPathList") { Type::EnvPathList }
        else if str_eq(text, "Error") { Type::Error }
        else if str_eq(text, "ProcessError") { Type::ProcessError }
        else if str_eq(text, "Pure") { Type::Pure }
        else if str_eq(text, "Proc") { Type::Proc }
        else if str_eq(text, "Command") { Type::Command }
        else if str_eq(text, "ProcessHandle") { Type::ProcessHandle }
        else if str_eq(text, "NetJob") { Type::NetJob }
        else if str_eq(text, "Unit") { Type::Unit }
        else { Type::Unknown }
    }

    /// Whether this type is `Unknown`.
    pub fn is_unknown(&self) -> (r: bool)
        ensures
            r == (self@ is Unknown),
    {
        matches!(self, Type::Unknown)
    }
}

} // verus!

verus! {

pub proof fn lemma_trim_len(s: Seq<char>)
    ensures
        crate::text::spec_trim(s).len() <= s.len(),
{
    crate::text::lemma_spec_trim_len(s);
}

pub proof fn lemma_generic_body_len(expected: Seq<char>, name: Seq<char>)
    ensures
        crate::contract_text::generic_body(expected, name) matches Some(b) ==> b.len() < expected.len(),
{
    let n = name.len();
    let m = expected.len();
    if m >= n + 2 {
        lemma_trim_len(expected.subrange((n + 1) as int, m - 1));
    }
}

pub proof fn lemma_split_pair_len(text: Seq<char>)
    ensures
        crate::contract_text::split_pair(text) matches Some((a, b)) ==> a.len() < text.len() && b.len() < text.len(),
{
    lemma_first_top_comma_bound(text, 0);
}

pub proof fn lemma_first_top_comma_bound(text: Seq<char>, i: int)
    ensures
        crate::contract_text::first_top_comma_from(text, i) matches Some(j) ==> i <= j < text.len(),
    decreases text.len() - i,
{
    if 0 <= i < text.len() && !crate::contract_text::top_comma(text, i) {
        lemma_first_top_comma_bound(text, i + 1);
    }
}

/// The two sides of a `Result[...]` body: split at its top-level comma, or
/// the body and `Error`.
pub open spec fn result_sides(inner: Seq<char>) -> (Seq<char>, Seq<char>) {
    match crate::contract_text::split_pair(inner) {
        Some((ok, err)) => (ok, err),
        None => (inner, "Error"@),
    }
}

/// The type a contract type text spells.
pub open spec fn type_of_str(text: Seq<char>) -> Option<TypeModel>
    decreases text.len(),
{
    let t = crate::text::spec_trim(text);
    proof {
        lemma_trim_len(text);
        lemma_generic_body_len(t, "List"@);
        lemma_generic_body_len(t, "Map"@);
        lemma_generic_body_len(t, "Stream"@);
        lemma_generic_body_len(t, "Result"@);
    }
    match crate::contract_text::generic_body(t, "List"@) {
        Some(inner) => match type_of_str(inner) {
            Some(it) => Some(TypeModel::List(Box::new(it))),
            None => None,
        },
        None => match crate::contract_text::generic_body(t, "Map"@) {
            Some(inner) => match type_of_str(inner) {
                Some(it) => Some(TypeModel::Dict(Box::new(it))),
                None => None,
            },
            None => match crate::contract_text::generic_body(t, "Stream"@) {
                Some(inner) => match type_of_str(inner) {
                    Some(it) => Some(TypeModel::Stream(Box::new(it))),
                    None => None,
                },
                None => match crate::contract_text::generic_body(t, "Result"@) {
                    Some(inner) => {
                        proof { lemma_split_pair_len(inner); }
                        let ok = crate::text::spec_trim(result_sides(inner).0);
                        let err = crate::text::spec_trim(result_sides(inner).1);
                        proof {
                            lemma_trim_len(result_sides(inner).0);
                            lemma_trim_len(result_sides(inner).1);
                            reveal_strlit("Error");
                            reveal_strlit("Result");
                        }
                        match (type_of_str(ok), type_of_str(err)) {
                            (Some(o), Some(e)) => Some(TypeModel::Result(Box::new(o), Box::new(e))),
                            _ => None,
                        }
                    },
                    None => {
                        let ty = type_of_name(t);
                        if ty is Unknown { None } else { Some(ty) }
                    },
                },
            },
        },
    }
}

} // verus!

verus! {

pub open spec fn opt_type_model(t: Option<Type>) -> Option<TypeModel> {
    match t {
        Some(t) => Some(t@),
        None => None,
    }
}

/// The type a contract type text spells, if any.
pub fn module_contract_type_from_str(text: &str) -> (r: Option<Type>)
    ensures
        opt_type_model(r) == type_of_str(text@),
    decreases text@.len(),
{
    let t = crate::text::str_trim(text);
    proof {
        lemma_trim_len(text@);
        lemma_generic_body_len(t@, "List"@);
        lemma_generic_body_len(t@, "Map"@);
        lemma_generic_body_len(t@, "Stream"@);
        lemma_generic_body_len(t@, "Result"@);
    }
    if let Some(inner) = crate::contract_text::module_contract_generic_body(t, "List") {
        let it = module_contract_type_from_str(inner)?;
        return Some(Type::List(Box::new(it)));
    }
    if let Some(inner) = crate::contract_text::module_contract_generic_body(t, "Map") {
        let it = module_contract_type_from_str(inner)?;
        return Some(Type::Dict(Box::new(it)));
    }
    if let Some(inner) = crate::contract_text::module_contract_generic_body(t, "Stream") {
        let it = module_contract_type_from_str(inner)?;
        return Some(Type::Stream(Box::new(it)));
    }
    if let Some(inner) = crate::contract_text::module_contract_generic_body(t, "Result") {
        proof {
            lemma_split_pair_len(inner@);
            reveal_strlit("Error");
            reveal_strlit("Result");
        }
        let (ok, err) = match crate::contract_text::module_contract_split_pair(inner) {
            Some(pair) => pair,
            None => (inner, "Error"),
        };
        let ok_t = crate::text::str_trim(ok);
        let err_t = crate::text::str_trim(err);
        proof {
            lemma_trim_len(ok@);
            lemma_trim_len(err@);
        }
        let o = module_contract_type_from_str(ok_t)?;
        let e = module_contract_type_from_str(err_t)?;
        return Some(Type::Result(Box::new(o), Box::new(e)));
    }
    let ty = Type::from_name(t);
    if ty.is_unknown() { None } else { Some(ty) }
}

} // verus!

verus! {

/// The first position at or after `i` where `p` occurs in `s`.
pub open spec fn find_from(s: Seq<char>, p: Seq<char>, i: int) -> Option<int>
    decreases s.len() + 1 - i,
{
    if i < 0 || i + p.len() > s.len() {
        None
    } else if crate::text::occurs_at(s, p, i) {
        Some(i)
    } else {
        find_from(s, p, i + 1)
    }
}

pub proof fn lemma_find_from_first(s: Seq<char>, p: Seq<char>, i: int, k: int)
    requires
        0 <= i <= k,
        crate::text::occurs_at(s, p, k),
        forall|j: int| i <= j < k ==> !crate::text::occurs_at(s, p, j),
    ensures
        find_from(s, p, i) == Some(k),
    decreases k - i,
{
    if i < k {
        lemma_find_from_first(s, p, i + 1, k);
    }
}

pub proof fn lemma_find_from_none(s: Seq<char>, p: Seq<char>, i: int)
    requires
        0 <= i,
        forall|j: int| !crate::text::occurs_at(s, p, j),
    ensures
        find_from(s, p, i) is None,
    decreases s.len() + 1 - i,
{
    if i + p.len() <= s.len() {
        lemma_find_from_none(s, p, i + 1);
    }
}

/// The types a list of parameter texts spell, when all spell one.
pub open spec fn types_of_pieces(pieces: Seq<Seq<char>>) -> Option<Seq<TypeModel>>
    decreases pieces.len(),
{
    if pieces.len() == 0 {
        Some(Seq::empty())
    } else {
        match (types_of_pieces(pieces.drop_last()), type_of_str(crate::text::spec_trim(pieces.last()))) {
            (Some(ts), Some(t)) => Some(ts.push(t)),
            _ => None,
        }
    }
}

/// The parameter and return types of a `Proc(A, B) -> R` contract text.
pub open spec fn proc_signature_of(expected: Seq<char>) -> Option<(Seq<TypeModel>, TypeModel)> {
    if expected.len() >= 5 && expected.subrange(0, 5) == "Proc("@ {
        let rest = expected.subrange(5, expected.len() as int);
        match find_from(rest, ") -> "@, 0) {
            Some(close) => {
                let params = rest.subrange(0, close);
                let ret = rest.subrange(close + 5, rest.len() as int);
                let parsed = if crate::text::spec_trim(params).len() == 0 {
                    Some(Seq::empty())
                } else {
                    types_of_pieces(crate::contract_text::split_from(params, 0, 0, Seq::empty()))
                };
                match (parsed, type_of_str(crate::text::spec_trim(ret))) {
                    (Some(ps), Some(r)) => Some((ps, r)),
                    _ => None,
                }
            },
            None => None,
        }
    } else {
        None
    }
}

pub open spec fn types_model(ts: Seq<Type>) -> Seq<TypeModel> {
    Seq::new(ts.len(), |i: int| ts[i]@)
}

/// The parameter and return types of a `Proc(...) -> R` contract text.
pub fn module_contract_proc_signature(expected: &str) -> (r: Option<(Vec<Type>, Type)>)
    ensures
        match r {
            Some((ps, ret)) => proc_signature_of(expected@) == Some((types_model(ps@), ret@)),
            None => proc_signature_of(expected@) is None,
        },
{
    proof { reveal_strlit("Proc("); reveal_strlit(") -> "); }
    let rest = match crate::text::str_strip_prefix(expected, "Proc(") {
        Some(r) => r,
        None => return None,
    };
    let close = match crate::text::str_find(rest, ") -> ") {
        Some(c) => c,
        None => {
            proof { lemma_find_from_none(rest@, ") -> "@, 0); }
            return None;
        },
    };
    proof { lemma_find_from_first(rest@, ") -> "@, 0, close as int); }
    let n = rest.unicode_len();
    let params = rest.substring_char(0, close);
    let ret = rest.substring_char(close + 5, n);
    let mut parsed: Vec<Type> = Vec::new();
    let pt = crate::text::str_trim(params);
    if !pt.is_empty() {
        let pieces = crate::contract_text::module_contract_split_types(params);
        let ghost sp = crate::contract_text::split_from(params@, 0, 0, Seq::empty());
        let mut i: usize = 0;
        #[verifier::loop_isolation(false)]
        while i < pieces.len()
            invariant
                i <= pieces@.len(),
                pieces@.len() == sp.len(),
                forall|k: int| 0 <= k < pieces@.len() ==> pieces@[k]@ == sp[k],
                types_of_pieces(sp.take(i as int)) == Some(types_model(parsed@)),
            decreases pieces@.len() - i,
        {
            let piece = crate::text::str_trim(pieces[i]);
            assert(sp.take((i + 1) as int).drop_last() =~= sp.take(i as int));
            let t = match module_contract_type_from_str(piece) {
                Some(t) => t,
                None => {
                    proof {
                        assert(types_of_pieces(sp.take((i + 1) as int)) is None);
                        lemma_types_of_pieces_none(sp, (i + 1) as int, sp.len() as int);
                        assert(sp.take(sp.len() as int) =~= sp);
                    }
                    return None;
                },
            };
            let ghost before = types_model(parsed@);
            parsed.push(t);
            assert(types_model(parsed@) =~= before.push(t@));
            i = i + 1;
        }
        assert(sp.take(sp.len() as int) =~= sp);
    } else {
        assert(types_model(parsed@) =~= Seq::<TypeModel>::empty());
    }
    let r = match module_contract_type_from_str(crate::text::str_trim(ret)) {
        Some(r) => r,
        None => return None,
    };
    Some((parsed, r))
}

pub proof fn lemma_types_of_pieces_none(sp: Seq<Seq<char>>, i: int, n: int)
    requires
        0 <= i <= n <= sp.len(),
        types_of_pieces(sp.take(i)) is None,
    ensures
        types_of_pieces(sp.take(n)) is None,
    decreases n - i,
{
    if i < n {
        assert(sp.take(i + 1).drop_last() =~= sp.take(i));
        lemma_types_of_pieces_none(sp, i + 1, n);
    }
}

} // verus!

verus! {

/// Whether every item from `i` on is of type `t`.
pub open spec fn items_match(items: Seq<ValueModel>, i: int, t: TypeModel) -> bool
    decreases t, items.len() - i,
{
    if i < 0 || i >= items.len() {
        true
    } else {
        value_matches_type(items[i], t) && items_match(items, i + 1, t)
    }
}

/// Whether every entry value from `i` on is of type `t`.
pub open spec fn entry_values_match(entries: Seq<(Seq<char>, ValueModel)>, i: int, t: TypeModel) -> bool
    decreases t, entries.len() - i,
{
    if i < 0 || i >= entries.len() {
        true
    } else {
        value_matches_type(entries[i].1, t) && entry_values_match(entries, i + 1, t)
    }
}

/// Whether the record entries hold every field from `i` on, each of its type.
pub open spec fn record_fields_match(
    values: Seq<(Seq<char>, ValueModel)>,
    fields: Seq<(Seq<char>, TypeModel)>,
    i: int,
) -> bool
    decreases fields, fields.len() - i,
{
    if i < 0 || i >= fields.len() {
        true
    } else {
        proof { assert(decreases_to!(fields => fields[i])); }
        (match crate::value::entries_lookup(values, fields[i].0) {
            Some(v) => value_matches_type(v, fields[i].1),
            None => false,
        }) && record_fields_match(values, fields, i + 1)
    }
}

/// Whether a value is of a static type.
pub open spec fn value_matches_type(v: ValueModel, t: TypeModel) -> bool
    decreases t, 0int,
{
    match t {
        TypeModel::Any | TypeModel::Unknown | TypeModel::Invalid => true,
        TypeModel::Null => v is Null,
        TypeModel::Bool => v is Bool,
        TypeModel::Int => v is Int,
        TypeModel::Float => v is Float,
        TypeModel::Duration => v is Duration,
        TypeModel::Str => v is Str,
        TypeModel::Bytes => v is Bytes,
        TypeModel::Digest => v is Digest,
        TypeModel::Regex => v is Regex,
        TypeModel::Path => v is Path,
        TypeModel::List(inner) => match v {
            ValueModel::List(items) => items_match(items, 0, *inner),
            _ => false,
        },
        TypeModel::Dict(inner) => match v {
            ValueModel::Dict(entries) => entry_values_match(entries, 0, *inner),
            _ => false,
        },
        TypeModel::Stream(inner) => match v {
            ValueModel::Stream { items, .. } => items_match(items, 0, *inner),
            _ => false,
        },
        TypeModel::Record(fields) => match v {
            ValueModel::Record(values) => fields.len() == 0 || record_fields_match(values, fields, 0),
            _ => false,
        },
        TypeModel::Module(exports) => v is Module && exports.len() == 0,
        TypeModel::Result(ok, err) => match v {
            ValueModel::ResultOk(x) => value_matches_type(*x, *ok),
            ValueModel::ResultErr(x) => value_matches_type(*x, *err),
            _ => false,
        },
        TypeModel::Status => v is Status,
        TypeModel::EnvPathList => v is EnvPathList,
        TypeModel::Error => v is Error,
        TypeModel::ErrorFamily(family) => v matches ValueModel::Error { family: f, .. } && f == family,
        TypeModel::ErrorVariant { family, variant } =>
            v matches ValueModel::Error { family: f, variant: va, .. } && f == family && va == variant,
        TypeModel::ErrorFacet(facet) => v matches ValueModel::Error { facets, .. } && facets.contains(facet),
        TypeModel::ProcessError => v is RunError,
        TypeModel::Pure => v is Pure,
        TypeModel::Proc => v is Proc,
        TypeModel::Command => v is Command,
        TypeModel::ProcessHandle => v is ProcessHandle,
        TypeModel::NetJob => v is NetJob,
        TypeModel::Unit => v is Unit,
        TypeModel::Tag(name) => v matches ValueModel::Tag { name: n, .. } && n == name,
        TypeModel::Optional(inner) => v is Null || value_matches_type(v, *inner),
    }
}

} // verus!

verus! {

pub proof fn lemma_items_match_all(items: Seq<ValueModel>, i: int, t: TypeModel)
    requires
        0 <= i <= items.len(),
    ensures
        items_match(items, i, t) == forall|k: int| i <= k < items.len() ==> value_matches_type(items[k], t),
    decreases items.len() - i,
{
    if i < items.len() {
        lemma_items_match_all(items, i + 1, t);
    }
}

pub proof fn lemma_entry_values_match_all(entries: Seq<(Seq<char>, ValueModel)>, i: int, t: TypeModel)
    requires
        0 <= i <= entries.len(),
    ensures
        entry_values_match(entries, i, t) == forall|k: int| i <= k < entries.len() ==> value_matches_type(entries[k].1, t),
    decreases entries.len() - i,
{
    if i < entries.len() {
        lemma_entry_values_match_all(entries, i + 1, t);
    }
}

/// Whether the entries hold `field` with a value of its type.
pub open spec fn field_ok(values: Seq<(Seq<char>, ValueModel)>, field: (Seq<char>, TypeModel)) -> bool {
    match crate::value::entries_lookup(values, field.0) {
        Some(v) => value_matches_type(v, field.1),
        None => false,
    }
}

pub proof fn lemma_record_fields_match_all(values: Seq<(Seq<char>, ValueModel)>, fields: Seq<(Seq<char>, TypeModel)>, i: int)
    requires
        0 <= i <= fields.len(),
    ensures
        record_fields_match(values, fields, i) == forall|k: int| i <= k < fields.len() ==>
            #[trigger] field_ok(values, fields[k]),
    decreases fields.len() - i,
{
    if i < fields.len() {
        lemma_record_fields_match_all(values, fields, i + 1);
        assert(record_fields_match(values, fields, i) == (field_ok(values, fields[i])
            && record_fields_match(values, fields, i + 1)));
    }
}

/// Whether every value of a list is of type `t`.
fn values_match_type(items: &Vec<Value>, t: &Type) -> (r: bool)
    ensures
        r == items_match(model_list(items@), 0, t@),
    decreases t, 1nat,
{
    let ghost m = model_list(items@);
    proof { lemma_items_match_all(m, 0, t@); }
    let mut i: usize = 0;
    while i < items.len()
        invariant
            m == model_list(items@),
            i <= items@.len(),
            forall|k: int| 0 <= k < i ==> value_matches_type(m[k], t@),
        decreases items@.len() - i,
    {
        assert(m[i as int] == items@[i as int]@);
        if !test_value_matches_type(&items[i], t) {
            assert(!value_matches_type(m[i as int], t@));
            proof { lemma_items_match_all(m, 0, t@); }
            assert(!items_match(m, 0, t@));
            return false;
        }
        i = i + 1;
    }
    true
}

/// Whether a value is of a static type.
pub fn test_value_matches_type(value: &Value, ty: &Type) -> (r: bool)
    ensures
        r == value_matches_type(value@, ty@),
    decreases ty, 0nat,
{
    match ty {
        Type::Any | Type::Unknown | Type::Invalid => true,
        Type::Null => matches!(value, Value::Null),
        Type::Bool => matches!(value, Value::Bool(_)),
        Type::Int => matches!(value, Value::Int(_)),
        Type::Float => matches!(value, Value::Float(_)),
        Type::Duration => matches!(value, Value::Duration(_)),
        Type::Str => matches!(value, Value::Str(_)),
        Type::Bytes => matches!(value, Value::Bytes(_)),
        Type::Digest => matches!(value, Value::Digest { .. }),
        Type::Regex => matches!(value, Value::Regex(_)),
        Type::Path => matches!(value, Value::Path(_)),
        Type::List(item_ty) => match value {
            Value::List(items) => values_match_type(items, item_ty),
            _ => false,
        },
        Type::Dict(item_ty) => match value {
            Value::Dict(entries) => {
                let ghost m = crate::value::model_entries(entries@);
                proof { lemma_entry_values_match_all(m, 0, item_ty@); }
 let mut i: usize = 0;
                #[verifier::loop_isolation(false)]
                while i < entries.len()
                    invariant
                        m == crate::value::model_entries(entries@),
                        i <= entries@.len(),
                        forall|k: int| 0 <= k < i ==> value_matches_type(m[k].1, item_ty@),
                    decreases entries@.len() - i,
                {
                    assert(m[i as int].1 == entries@[i as int].1@);
                    if !test_value_matches_type(&entries[i].1, item_ty) {
                        return false;
                    }
                    i = i + 1;
                }
                true
            },
            _ => false,
        },
        Type::Stream(item_ty) => match value {
            Value::Stream(stream) => values_match_type(&stream.items, item_ty),
            _ => false,
        },
        Type::Record(fields) => match value {
            Value::Record(values) => {
                if fields.len() == 0 {
                    assert(type_fields_model(fields@).len() == 0);
                    return true;
                }
                let ghost vm = crate::value::model_entries(values@);
                let ghost fm = type_fields_model(fields@);
                proof { lemma_record_fields_match_all(vm, fm, 0); }
 let mut i: usize = 0;
                #[verifier::loop_isolation(false)]
                while i < fields.len()
                    invariant
                        vm == crate::value::model_entries(values@),
                        fm == type_fields_model(fields@),
                        i <= fields@.len(),
                        forall|k: int| 0 <= k < i ==> #[trigger] field_ok(vm, fm[k]),
                    decreases fields@.len() - i,
                {
                    proof { vstd::std_specs::vec::axiom_vec_index_decreases(*fields, i as int); }
                    assert(fm[i as int] == (fields@[i as int].0@, fields@[i as int].1@));
                    let ok = match crate::value::record_get(values, fields[i].0.as_str()) {
                        Some(v) => test_value_matches_type(v, &fields[i].1),
                        None => false,
                    };
                    if !ok {
                        assert(!field_ok(vm, fm[i as int]));
                        assert(!record_fields_match(vm, fm, 0));
                        return false;
                    }
                    i = i + 1;
                }
                true
            },
            _ => false,
        },
        Type::Module(exports) => {
            assert(type_fields_model(exports@).len() == exports@.len());
            matches!(value, Value::Module(_)) && exports.len() == 0
        },
        Type::Result(ok_ty, err_ty) => match value {
            Value::ResultOk(x) => test_value_matches_type(x, ok_ty),
            Value::ResultErr(x) => test_value_matches_type(x, err_ty),
            _ => false,
        },
        Type::Status => matches!(value, Value::Status { .. }),
        Type::EnvPathList => matches!(value, Value::EnvPathList),
        Type::Error => matches!(value, Value::Error(_)),
        Type::ErrorFamily(family) => match value {
            Value::Error(e) => e.family == *family,
            _ => false,
        },
        Type::ErrorVariant { family, variant } => match value {
            Value::Error(e) => e.family == *family && e.variant == *variant,
            _ => false,
        },
        Type::ErrorFacet(facet) => match value {
            Value::Error(e) => {
 let mut i: usize = 0;
                #[verifier::loop_isolation(false)]
                while i < e.facets.len()
                    invariant
                        i <= e.facets@.len(),
                        forall|k: int| 0 <= k < i ==> e.facets@[k]@ != facet@,
                    decreases e.facets@.len() - i,
                {
                    if e.facets[i] == *facet {
                        assert(crate::value::model_strings(e.facets@)[i as int] == facet@);
                        return true;
                    }
                    i = i + 1;
                }
                assert(!crate::value::model_strings(e.facets@).contains(facet@));
                false
            },
            _ => false,
        },
        Type::ProcessError => matches!(value, Value::RunError { .. }),
        Type::Pure => matches!(value, Value::Pure(_)),
        Type::Proc => matches!(value, Value::Proc(_)),
        Type::Command => matches!(value, Value::Command(_)),
        Type::ProcessHandle => matches!(value, Value::ProcessHandle { .. }),
        Type::NetJob => matches!(value, Value::NetJob(_)),
        Type::Unit => matches!(value, Value::Unit),
        Type::Tag(name) => match value {
            Value::Tag { name: n, .. } => *n == *name,
            _ => false,
        },
        Type::Optional(inner) => matches!(value, Value::Null) || test_value_matches_type(value, inner),
    }
}

} // verus!
