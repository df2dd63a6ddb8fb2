//! Module contracts: the type a value shows at run time, whether a value
//! satisfies a contract type name, and checking a module's exports against
//! its required and optional fields.
use vstd::prelude::*;
use vstd::string::*;
use rustc_hash::FxHashMap;
use crate::value::{Value, ValueModel, model_list, model_entries, spec_type_name, entries_lookup, record_get, RecordMap};
use crate::types::{Type, TypeModel, builtin_of, value_is_builtin, BuiltinTypeName, proc_signature_of, types_model};
use crate::contract_text::{generic_body, split_pair, contract_message};
use crate::text::{spec_trim, str_concat3};

verus! {

/// The type a value shows at run time: containers name the one type all
/// their items show, or `Any`.
pub open spec fn dynamic_type(v: ValueModel) -> Seq<char>
    decreases v, 0int,
{
    match v {
        ValueModel::List(items) => "List["@ + inner_or_any(list_homogeneous(items)) + "]"@,
        ValueModel::Dict(e) => "Map["@ + inner_or_any(entries_homogeneous(e)) + "]"@,
        ValueModel::Stream { items, .. } => "Stream["@ + inner_or_any(list_homogeneous(items)) + "]"@,
        ValueModel::ResultOk(inner) => "Result["@ + dynamic_type(*inner) + ", Error]"@,
        ValueModel::ResultErr(inner) => "Result[Any, "@ + dynamic_type(*inner) + "]"@,
        _ => spec_type_name(v),
    }
}

pub open spec fn inner_or_any(t: Option<Seq<char>>) -> Seq<char> {
    match t {
        Some(t) => t,
        None => "Any"@,
    }
}

/// The type every item shows, when they all show the same one.
pub open spec fn list_homogeneous(items: Seq<ValueModel>) -> Option<Seq<char>>
    decreases items, items.len() + 1,
{
    if items.len() == 0 {
        None
    } else if list_same_from(items, dynamic_type(items[0]), 1) {
        Some(dynamic_type(items[0]))
    } else {
        None
    }
}

/// Whether every item from `i` on shows type `t`.
pub open spec fn list_same_from(items: Seq<ValueModel>, t: Seq<char>, i: int) -> bool
    decreases items, items.len() - i,
{
    if i < 0 || i >= items.len() {
        true
    } else {
        dynamic_type(items[i]) == t && list_same_from(items, t, i + 1)
    }
}

/// The type every entry value shows, when they all show the same one.
pub open spec fn entries_homogeneous(e: Seq<(Seq<char>, ValueModel)>) -> Option<Seq<char>>
    decreases e, e.len() + 1,
{
    if e.len() == 0 {
        None
    } else {
        proof { assert(decreases_to!(e => e[0])); }
        if entries_same_from(e, dynamic_type(e[0].1), 1) {
            Some(dynamic_type(e[0].1))
        } else {
            None
        }
    }
}

/// Whether every entry value from `i` on shows type `t`.
pub open spec fn entries_same_from(e: Seq<(Seq<char>, ValueModel)>, t: Seq<char>, i: int) -> bool
    decreases e, e.len() - i,
{
    if i < 0 || i >= e.len() {
        true
    } else {
        proof { assert(decreases_to!(e => e[i])); }
        dynamic_type(e[i].1) == t && entries_same_from(e, t, i + 1)
    }
}

/// The type a value shows at run time.
pub fn module_contract_dynamic_type(value: &Value) -> (r: String)
    ensures
        r@ == dynamic_type(value@),
    decreases value, 2nat,
{
    proof {
        reveal_strlit("List[");
        reveal_strlit("Map[");
        reveal_strlit("Stream[");
        reveal_strlit("]");
        reveal_strlit("Any");
        reveal_strlit("Result[");
        reveal_strlit(", Error]");
        reveal_strlit("Result[Any, ");
    }
    match value {
        Value::List(items) => {
            let inner = match homogeneous_dynamic_type(items) {
                Some(t) => t,
                None => String::from_str("Any"),
            };
            str_concat3("List[", inner.as_str(), "]")
        },
        Value::Dict(e) => {
            let inner = match homogeneous_entries_type(e) {
                Some(t) => t,
                None => String::from_str("Any"),
            };
            str_concat3("Map[", inner.as_str(), "]")
        },
        Value::Stream(stream) => {
            let inner = match homogeneous_dynamic_type(&stream.items) {
                Some(t) => t,
                None => String::from_str("Any"),
            };
            str_concat3("Stream[", inner.as_str(), "]")
        },
        Value::ResultOk(inner) => {
            let t = module_contract_dynamic_type(inner);
            str_concat3("Result[", t.as_str(), ", Error]")
        },
        Value::ResultErr(inner) => {
            let t = module_contract_dynamic_type(inner);
            str_concat3("Result[Any, ", t.as_str(), "]")
        },
        _ => String::from_str(value.type_label()),
    }
}

/// The type every value shows, when they all show the same one.
pub fn homogeneous_dynamic_type(values: &Vec<Value>) -> (r: Option<String>)
    ensures
        match list_homogeneous(model_list(values@)) {
            Some(t) => r matches Some(s) && s@ == t,
            None => r is None,
        },
    decreases values, 1nat,
{
    let ghost ms = model_list(values@);
    if values.len() == 0 {
        return None;
    }
    proof { vstd::std_specs::vec::axiom_vec_index_decreases(*values, 0); }
    let first = module_contract_dynamic_type(&values[0]);
    let mut i: usize = 1;
    while i < values.len()
        invariant
            1 <= i <= values@.len(),
            ms == model_list(values@),
            first@ == dynamic_type(ms[0]),
            list_same_from(ms, first@, 1) == list_same_from(ms, first@, i as int),
        decreases values@.len() - i,
    {
        proof { vstd::std_specs::vec::axiom_vec_index_decreases(*values, i as int); }
        let t = module_contract_dynamic_type(&values[i]);
        if t != first {
            return None;
        }
        i = i + 1;
    }
    Some(first)
}

/// The type every entry value shows, when they all show the same one.
pub fn homogeneous_entries_type(entries: &Vec<(String, Value)>) -> (r: Option<String>)
    ensures
        match entries_homogeneous(model_entries(entries@)) {
            Some(t) => r matches Some(s) && s@ == t,
            None => r is None,
        },
    decreases entries, 1nat,
{
    let ghost me = model_entries(entries@);
    if entries.len() == 0 {
        return None;
    }
    proof { vstd::std_specs::vec::axiom_vec_index_decreases(*entries, 0); }
    let first = module_contract_dynamic_type(&entries[0].1);
    let mut i: usize = 1;
    while i < entries.len()
        invariant
            1 <= i <= entries@.len(),
            me == model_entries(entries@),
            first@ == dynamic_type(me[0].1),
            entries_same_from(me, first@, 1) == entries_same_from(me, first@, i as int),
        decreases entries@.len() - i,
    {
        proof { vstd::std_specs::vec::axiom_vec_index_decreases(*entries, i as int); }
        let t = module_contract_dynamic_type(&entries[i].1);
        if t != first {
            return None;
        }
        i = i + 1;
    }
    Some(first)
}

} // verus!

verus! {

/// The position of a type's constructor in the list of constructors.
pub open spec fn type_rank(t: TypeModel) -> nat {
    match t {
        TypeModel::Any => 0, TypeModel::Unknown => 1, TypeModel::Invalid => 2, TypeModel::Null => 3,
        TypeModel::Bool => 4, TypeModel::Int => 5, TypeModel::Float => 6, TypeModel::Duration => 7,
        TypeModel::Str => 8, TypeModel::Bytes => 9, TypeModel::Digest => 10, TypeModel::Regex => 11,
        TypeModel::Path => 12, TypeModel::List(_) => 13, TypeModel::Dict(_) => 14, TypeModel::Stream(_) => 15,
        TypeModel::Record(_) => 16, TypeModel::Module(_) => 17, TypeModel::Result(_, _) => 18,
        TypeModel::Status => 19, TypeModel::EnvPathList => 20, TypeModel::Error => 21,
        TypeModel::ErrorFamily(_) => 22, TypeModel::ErrorVariant { .. } => 23, TypeModel::ErrorFacet(_) => 24,
        TypeModel::ProcessError => 25, TypeModel::Pure => 26, TypeModel::Proc => 27, TypeModel::Command => 28,
        TypeModel::ProcessHandle => 29, TypeModel::NetJob => 30, TypeModel::Unit => 31, TypeModel::Tag(_) => 32,
        TypeModel::Optional(_) => 33,
    }
}

/// Whether a value of type `a` may stand where type `e` is expected: `Any`
/// on either side fits, containers fit by their item types, records and
/// modules field by field, named error and tag types by name, and any
/// other type only itself.
pub open spec fn type_accepts(a: TypeModel, e: TypeModel) -> bool
    decreases a, 1int,
{
    if e is Any {
        true
    } else {
        match a {
            TypeModel::Any => true,
            TypeModel::List(x) => match e { TypeModel::List(y) => type_accepts(*x, *y), _ => false },
            TypeModel::Dict(x) => match e { TypeModel::Dict(y) => type_accepts(*x, *y), _ => false },
            TypeModel::Stream(x) => match e { TypeModel::Stream(y) => type_accepts(*x, *y), _ => false },
            TypeModel::Optional(x) => match e { TypeModel::Optional(y) => type_accepts(*x, *y), _ => false },
            TypeModel::Result(a1, a2) => match e {
                TypeModel::Result(e1, e2) => type_accepts(*a1, *e1) && type_accepts(*a2, *e2),
                _ => false,
            },
            TypeModel::Record(fa) => match e {
                TypeModel::Record(fe) => fa.len() == fe.len() && fields_accept(fa, fe, 0),
                _ => false,
            },
            TypeModel::Module(fa) => match e {
                TypeModel::Module(fe) => fa.len() == fe.len() && fields_accept(fa, fe, 0),
                _ => false,
            },
            TypeModel::ErrorFamily(x) => match e { TypeModel::ErrorFamily(y) => x == y, _ => false },
            TypeModel::ErrorVariant { family: f1, variant: v1 } => match e {
                TypeModel::ErrorVariant { family: f2, variant: v2 } => f1 == f2 && v1 == v2,
                _ => false,
            },
            TypeModel::ErrorFacet(x) => match e { TypeModel::ErrorFacet(y) => x == y, _ => false },
            TypeModel::Tag(x) => match e { TypeModel::Tag(y) => x == y, _ => false },
            _ => type_rank(a) == type_rank(e),
        }
    }
}

/// Whether fields `i..` of `fa` have the names of those of `fe` and fit
/// their types.
pub open spec fn fields_accept(fa: Seq<(Seq<char>, TypeModel)>, fe: Seq<(Seq<char>, TypeModel)>, i: int) -> bool
    decreases fa, fa.len() - i,
{
    if i < 0 || i >= fa.len() {
        true
    } else {
        proof { assert(decreases_to!(fa => fa[i])); }
        i < fe.len() && fa[i].0 == fe[i].0 && type_accepts(fa[i].1, fe[i].1) && fields_accept(fa, fe, i + 1)
    }
}

impl Type {
    /// The position of this type's constructor.
    pub fn rank(&self) -> (r: u32)
        ensures
            r as nat == type_rank(self@),
    {
        match self {
            Type::Any => 0, Type::Unknown => 1, Type::Invalid => 2, Type::Null => 3,
            Type::Bool => 4, Type::Int => 5, Type::Float => 6, Type::Duration => 7,
            Type::Str => 8, Type::Bytes => 9, Type::Digest => 10, Type::Regex => 11,
            Type::Path => 12, Type::List(_) => 13, Type::Dict(_) => 14, Type::Stream(_) => 15,
            Type::Record(_) => 16, Type::Module(_) => 17, Type::Result(_, _) => 18,
            Type::Status => 19, Type::EnvPathList => 20, Type::Error => 21,
            Type::ErrorFamily(_) => 22, Type::ErrorVariant { .. } => 23, Type::ErrorFacet(_) => 24,
            Type::ProcessError => 25, Type::Pure => 26, Type::Proc => 27, Type::Command => 28,
            Type::ProcessHandle => 29, Type::NetJob => 30, Type::Unit => 31, Type::Tag(_) => 32,
            Type::Optional(_) => 33,
        }
    }

    /// Whether a value of this type may stand where `expected` is expected.
    pub fn matches_expected(&self, expected: &Type) -> (r: bool)
        ensures
            r == type_accepts(self@, expected@),
        decreases self, 1nat,
    {
        if let Type::Any = expected {
            return true;
        }
        match self {
            Type::Any => true,
            Type::List(x) => match expected { Type::List(y) => (**x).matches_expected(&**y), _ => false },
            Type::Dict(x) => match expected { Type::Dict(y) => (**x).matches_expected(&**y), _ => false },
            Type::Stream(x) => match expected { Type::Stream(y) => (**x).matches_expected(&**y), _ => false },
            Type::Optional(x) => match expected { Type::Optional(y) => (**x).matches_expected(&**y), _ => false },
            Type::Result(a1, a2) => match expected {
                Type::Result(e1, e2) => (**a1).matches_expected(&**e1) && (**a2).matches_expected(&**e2),
                _ => false,
            },
            Type::Record(fa) => match expected {
                Type::Record(fe) => fa.len() == fe.len() && fields_match_expected(fa, fe),
                _ => false,
            },
            Type::Module(fa) => match expected {
                Type::Module(fe) => fa.len() == fe.len() && fields_match_expected(fa, fe),
                _ => false,
            },
            Type::ErrorFamily(x) => match expected { Type::ErrorFamily(y) => *x == *y, _ => false },
            Type::ErrorVariant { family: f1, variant: v1 } => match expected {
                Type::ErrorVariant { family: f2, variant: v2 } => *f1 == *f2 && *v1 == *v2,
                _ => false,
            },
            Type::ErrorFacet(x) => match expected { Type::ErrorFacet(y) => *x == *y, _ => false },
            Type::Tag(x) => match expected { Type::Tag(y) => *x == *y, _ => false },
            _ => self.rank() == expected.rank(),
        }
    }
}

/// Whether each field of `fa` has the name of the field of `fe` at the same
/// position and fits its type.
pub fn fields_match_expected(fa: &Vec<(String, Type)>, fe: &Vec<(String, Type)>) -> (r: bool)
    requires
        fa@.len() == fe@.len(),
    ensures
        r == fields_accept(crate::types::type_fields_model(fa@), crate::types::type_fields_model(fe@), 0),
    decreases fa, 0nat,
{
    let ghost ma = crate::types::type_fields_model(fa@);
    let ghost me = crate::types::type_fields_model(fe@);
    let mut i: usize = 0;
    while i < fa.len()
        invariant
            i <= fa@.len(),
            fa@.len() == fe@.len(),
            ma == crate::types::type_fields_model(fa@),
            me == crate::types::type_fields_model(fe@),
            fields_accept(ma, me, 0) == fields_accept(ma, me, i as int),
        decreases fa@.len() - i,
    {
        proof { vstd::std_specs::vec::axiom_vec_index_decreases(*fa, i as int); }
        if !(fa[i].0 == fe[i].0) || !fa[i].1.matches_expected(&fe[i].1) {
            return false;
        }
        i = i + 1;
    }
    true
}

} // verus!

verus! {

/// A function's declared parameter and return types.
pub struct FunctionSignature {
    pub params: Vec<Type>,
    pub return_ty: Type,
}

/// The signature a module export was captured with.
pub struct ModuleExportSignature {
    pub sig: FunctionSignature,
}

/// `HashMap::get` on the captured export signatures.
#[verifier::external_body]
pub(crate) fn fx_signature_get<'a>(m: &'a FxHashMap<u32, ModuleExportSignature>, key: u32) -> (r: Option<&'a ModuleExportSignature>)
    ensures
        match r {
            Some(s) => m@.contains_key(key) && *s == m@[key],
            None => !m@.contains_key(key),
        },
{
    m.get(&key)
}

/// Whether procedure `name` was captured with exactly the parameter and
/// return types expected, each fitting the other both ways.
pub open spec fn proc_matches(sigs: Map<u32, ModuleExportSignature>, name: u32, params: Seq<TypeModel>, ret: TypeModel) -> bool {
    &&& sigs.contains_key(name)
    &&& sigs[name].sig.params@.len() == params.len()
    &&& forall|i: int| 0 <= i < params.len() ==> type_accepts(#[trigger] sigs[name].sig.params@[i]@, params[i])
        && type_accepts(params[i], sigs[name].sig.params@[i]@)
    &&& type_accepts(sigs[name].sig.return_ty@, ret)
    &&& type_accepts(ret, sigs[name].sig.return_ty@)
}

/// Whether procedure `name` was captured with the expected signature.
pub fn module_contract_proc_matches(
    signatures: &FxHashMap<u32, ModuleExportSignature>,
    name: u32,
    expected_params: &Vec<Type>,
    expected_return: &Type,
) -> (r: bool)
    ensures
        r == proc_matches(signatures@, name, types_model(expected_params@), expected_return@),
{
    let captured = match fx_signature_get(signatures, name) {
        Some(c) => c,
        None => return false,
    };
    let sig = &captured.sig;
    if sig.params.len() != expected_params.len() {
        return false;
    }
    let ghost ps = types_model(expected_params@);
    let mut i: usize = 0;
    while i < sig.params.len()
        invariant
            i <= sig.params@.len(),
            sig.params@.len() == expected_params@.len(),
            ps == types_model(expected_params@),
            *sig == signatures@[name].sig,
            forall|k: int| 0 <= k < i ==> type_accepts(#[trigger] sig.params@[k]@, ps[k]) && type_accepts(ps[k], sig.params@[k]@),
        decreases sig.params@.len() - i,
    {
        if !sig.params[i].matches_expected(&expected_params[i]) || !expected_params[i].matches_expected(&sig.params[i]) {
            assert(ps[i as int] == expected_params@[i as int]@);
            assert(!(type_accepts(signatures@[name].sig.params@[i as int]@, ps[i as int])
                && type_accepts(ps[i as int], signatures@[name].sig.params@[i as int]@)));
            return false;
        }
        i = i + 1;
    }
    sig.return_ty.matches_expected(expected_return) && expected_return.matches_expected(&sig.return_ty)
}

/// The two halves of a `Result[...]` body: around its top-level comma, or
/// the body and `Error`.
pub open spec fn result_halves(inner: Seq<char>) -> (Seq<char>, Seq<char>) {
    match split_pair(inner) {
        Some((ok, err)) => (ok, err),
        None => (inner, "Error"@),
    }
}

/// Whether a value satisfies a contract type name: `Any` always, `Unknown`
/// never, a procedure signature by its captured signature, a container by
/// all its items, a result by its side, and a builtin name by the value's
/// kind.
pub open spec fn type_matches(sigs: Map<u32, ModuleExportSignature>, v: ValueModel, expected: Seq<char>) -> bool
    decreases v, 0int,
{
    let e = spec_trim(expected);
    if builtin_of(e) == Some(BuiltinTypeName::Any) {
        true
    } else if builtin_of(e) == Some(BuiltinTypeName::Unknown) {
        false
    } else if proc_signature_of(e) is Some {
        match v {
            ValueModel::Proc(name) => proc_matches(sigs, name, (proc_signature_of(e)->0).0, (proc_signature_of(e)->0).1),
            _ => false,
        }
    } else if generic_body(e, "List"@) is Some {
        match v {
            ValueModel::List(items) => items_match_from(sigs, items, generic_body(e, "List"@)->0, 0),
            _ => false,
        }
    } else if generic_body(e, "Map"@) is Some {
        match v {
            ValueModel::Dict(entries) => entries_match_from(sigs, entries, generic_body(e, "Map"@)->0, 0),
            _ => false,
        }
    } else if generic_body(e, "Stream"@) is Some {
        match v {
            ValueModel::Stream { items, .. } => items_match_from(sigs, items, generic_body(e, "Stream"@)->0, 0),
            _ => false,
        }
    } else if generic_body(e, "Result"@) is Some {
        let halves = result_halves(generic_body(e, "Result"@)->0);
        match v {
            ValueModel::ResultOk(x) => type_matches(sigs, *x, spec_trim(halves.0)),
            ValueModel::ResultErr(x) => type_matches(sigs, *x, spec_trim(halves.1)),
            _ => false,
        }
    } else {
        match builtin_of(e) {
            Some(b) => value_is_builtin(v, b),
            None => false,
        }
    }
}

/// Whether every item from `i` on satisfies `t`.
pub open spec fn items_match_from(sigs: Map<u32, ModuleExportSignature>, items: Seq<ValueModel>, t: Seq<char>, i: int) -> bool
    decreases items, items.len() - i,
{
    if i < 0 || i >= items.len() {
        true
    } else {
        type_matches(sigs, items[i], t) && items_match_from(sigs, items, t, i + 1)
    }
}

/// Whether every entry value from `i` on satisfies `t`.
pub open spec fn entries_match_from(sigs: Map<u32, ModuleExportSignature>, e: Seq<(Seq<char>, ValueModel)>, t: Seq<char>, i: int) -> bool
    decreases e, e.len() - i,
{
    if i < 0 || i >= e.len() {
        true
    } else {
        proof { assert(decreases_to!(e => e[i])); }
        type_matches(sigs, e[i].1, t) && entries_match_from(sigs, e, t, i + 1)
    }
}

/// Whether a value satisfies a contract type name.
pub fn module_contract_type_matches(
    signatures: &FxHashMap<u32, ModuleExportSignature>,
    value: &Value,
    expected: &str,
) -> (r: bool)
    ensures
        r == type_matches(signatures@, value@, expected@),
    decreases value, 2nat,
{
    proof {
        reveal_strlit("List");
        reveal_strlit("Map");
        reveal_strlit("Stream");
        reveal_strlit("Result");
        reveal_strlit("Error");
    }
    let e = crate::text::str_trim(expected);
    let builtin = BuiltinTypeName::parse(e);
    if builtin == Some(BuiltinTypeName::Any) {
        return true;
    }
    if builtin == Some(BuiltinTypeName::Unknown) {
        return false;
    }
    if let Some((params, ret)) = crate::types::module_contract_proc_signature(e) {
        return match value {
            Value::Proc(name) => module_contract_proc_matches(signatures, *name, &params, &ret),
            _ => false,
        };
    }
    if let Some(inner) = crate::contract_text::module_contract_generic_body(e, "List") {
        return match value {
            Value::List(items) => items_match_type(signatures, items, inner),
            _ => false,
        };
    }
    if let Some(inner) = crate::contract_text::module_contract_generic_body(e, "Map") {
        return match value {
            Value::Dict(entries) => entries_match_type(signatures, entries, inner),
            _ => false,
        };
    }
    if let Some(inner) = crate::contract_text::module_contract_generic_body(e, "Stream") {
        return match value {
            Value::Stream(stream) => items_match_type(signatures, &stream.items, inner),
            _ => false,
        };
    }
    if let Some(inner) = crate::contract_text::module_contract_generic_body(e, "Result") {
        let (ok_expected, err_expected) = match crate::contract_text::module_contract_split_pair(inner) {
            Some(pair) => pair,
            None => (inner, "Error"),
        };
        return match value {
            Value::ResultOk(x) => module_contract_type_matches(signatures, x, crate::text::str_trim(ok_expected)),
            Value::ResultErr(x) => module_contract_type_matches(signatures, x, crate::text::str_trim(err_expected)),
            _ => false,
        };
    }
    match builtin {
        Some(b) => crate::types::module_value_matches_builtin_type(value, b),
        None => false,
    }
}

/// Whether every item satisfies a contract type name.
pub fn items_match_type(signatures: &FxHashMap<u32, ModuleExportSignature>, items: &Vec<Value>, t: &str) -> (r: bool)
    ensures
        r == items_match_from(signatures@, model_list(items@), t@, 0),
    decreases items, 1nat,
{
    let ghost ms = model_list(items@);
    let mut i: usize = 0;
    while i < items.len()
        invariant
            i <= items@.len(),
            ms == model_list(items@),
            items_match_from(signatures@, ms, t@, 0) == items_match_from(signatures@, ms, t@, i as int),
        decreases items@.len() - i,
    {
        proof { vstd::std_specs::vec::axiom_vec_index_decreases(*items, i as int); }
        if !module_contract_type_matches(signatures, &items[i], t) {
            return false;
        }
        i = i + 1;
    }
    true
}

/// Whether every entry value satisfies a contract type name.
pub fn entries_match_type(signatures: &FxHashMap<u32, ModuleExportSignature>, entries: &Vec<(String, Value)>, t: &str) -> (r: bool)
    ensures
        r == entries_match_from(signatures@, model_entries(entries@), t@, 0),
    decreases entries, 1nat,
{
    let ghost me = model_entries(entries@);
    let mut i: usize = 0;
    while i < entries.len()
        invariant
            i <= entries@.len(),
            me == model_entries(entries@),
            entries_match_from(signatures@, me, t@, 0) == entries_match_from(signatures@, me, t@, i as int),
        decreases entries@.len() - i,
    {
        proof { vstd::std_specs::vec::axiom_vec_index_decreases(*entries, i as int); }
        if !module_contract_type_matches(signatures, &entries[i].1, t) {
            return false;
        }
        i = i + 1;
    }
    true
}

} // verus!

verus! {

/// The source, as text.
pub open spec fn source_text(source: Option<&str>) -> Option<Seq<char>> {
    match source {
        Some(s) => Some(s@),
        None => None,
    }
}

/// The type a contract field names: its value must be a string, trimmed.
pub open spec fn expected_type(field: Seq<char>, v: ValueModel, source: Option<Seq<char>>) -> Result<Seq<char>, Seq<char>> {
    match v {
        ValueModel::Str(s) => Ok(spec_trim(s)),
        _ => Err(contract_message(source,
            "contract field `"@ + field + "` expected type name Str, found "@ + spec_type_name(v))),
    }
}

/// The type a contract field names.
pub fn module_contract_expected_type(field: &str, value: &Value, source: Option<&str>) -> (r: Result<String, String>)
    ensures
        match expected_type(field@, value@, source_text(source)) {
            Ok(t) => r matches Ok(s) && s@ == t,
            Err(m) => r matches Err(s) && s@ == m,
        },
{
    match value {
        Value::Str(expected) => Ok(String::from_str(crate::text::str_trim(expected.as_str()))),
        actual => {
            proof {
                reveal_strlit("contract field `");
                reveal_strlit("` expected type name Str, found ");
            }
            let mut detail = String::from_str("contract field `");
            detail.append(field);
            detail.append("` expected type name Str, found ");
            detail.append(actual.type_label());
            Err(crate::contract_text::module_contract_message(source, detail.as_str()))
        },
    }
}

/// The message for a field whose value does not satisfy its type.
pub open spec fn mismatch_detail(field: Seq<char>, expected: Seq<char>, actual: ValueModel) -> Seq<char> {
    "field `"@ + field + "` expected "@ + expected + ", found "@ + dynamic_type(actual)
}

/// The first problem with required fields `i..`: a field that names no
/// type, is missing from the exports, or holds a value of another type.
pub open spec fn required_problem(
    sigs: Map<u32, ModuleExportSignature>,
    exports: Seq<(Seq<char>, ValueModel)>,
    req: Seq<(Seq<char>, ValueModel)>,
    i: int,
    source: Option<Seq<char>>,
) -> Option<Seq<char>>
    decreases req.len() - i,
{
    if i < 0 || i >= req.len() {
        None
    } else {
        match expected_type(req[i].0, req[i].1, source) {
            Err(m) => Some(m),
            Ok(exp) => match entries_lookup(exports, req[i].0) {
                None => Some(contract_message(source,
                    "missing required field `"@ + req[i].0 + "` (expected "@ + exp + ")"@)),
                Some(actual) => if !type_matches(sigs, actual, exp) {
                    Some(contract_message(source, mismatch_detail(req[i].0, exp, actual)))
                } else {
                    required_problem(sigs, exports, req, i + 1, source)
                },
            },
        }
    }
}

/// The first problem with optional fields `i..`: a field that names no
/// type, or is exported with a value of another type.
pub open spec fn optional_problem(
    sigs: Map<u32, ModuleExportSignature>,
    exports: Seq<(Seq<char>, ValueModel)>,
    opt: Seq<(Seq<char>, ValueModel)>,
    i: int,
    source: Option<Seq<char>>,
) -> Option<Seq<char>>
    decreases opt.len() - i,
{
    if i < 0 || i >= opt.len() {
        None
    } else {
        match expected_type(opt[i].0, opt[i].1, source) {
            Err(m) => Some(m),
            Ok(exp) => match entries_lookup(exports, opt[i].0) {
                Some(actual) => if !type_matches(sigs, actual, exp) {
                    Some(contract_message(source, mismatch_detail(opt[i].0, exp, actual)))
                } else {
                    optional_problem(sigs, exports, opt, i + 1, source)
                },
                None => optional_problem(sigs, exports, opt, i + 1, source),
            },
        }
    }
}

/// The message for a field of type `expected` exported with `actual`.
fn mismatch_message(source: Option<&str>, field: &str, expected: &str, actual: &Value) -> (r: String)
    ensures
        r@ == contract_message(source_text(source), mismatch_detail(field@, expected@, actual@)),
{
    proof {
        reveal_strlit("field `");
        reveal_strlit("` expected ");
        reveal_strlit(", found ");
    }
    let mut detail = String::from_str("field `");
    detail.append(field);
    detail.append("` expected ");
    detail.append(expected);
    detail.append(", found ");
    let found = module_contract_dynamic_type(actual);
    detail.append(found.as_str());
    crate::contract_text::module_contract_message(source, detail.as_str())
}

/// Checks a module's exports against its contract: every required field
/// must be exported with a value of its type, and every optional field that
/// is exported must be; the first problem is reported.
pub fn validate_module_contract(
    signatures: &FxHashMap<u32, ModuleExportSignature>,
    exports: &RecordMap,
    required: &RecordMap,
    optional: &RecordMap,
    source: Option<&str>,
) -> (r: Result<(), String>)
    ensures
        match required_problem(signatures@, model_entries(exports@), model_entries(required@), 0, source_text(source)) {
            Some(m) => r matches Err(s) && s@ == m,
            None => match optional_problem(signatures@, model_entries(exports@), model_entries(optional@), 0, source_text(source)) {
                Some(m) => r matches Err(s) && s@ == m,
                None => r is Ok,
            },
        },
{
    let ghost ex = model_entries(exports@);
    let ghost rq = model_entries(required@);
    let ghost op = model_entries(optional@);
    let mut i: usize = 0;
    while i < required.len()
        invariant
            i <= required@.len(),
            ex == model_entries(exports@),
            rq == model_entries(required@),
            required_problem(signatures@, ex, rq, 0, source_text(source))
                == required_problem(signatures@, ex, rq, i as int, source_text(source)),
        decreases required@.len() - i,
    {
        let field = required[i].0.as_str();
        let expected = module_contract_expected_type(field, &required[i].1, source)?;
        let actual = match record_get(exports, field) {
            Some(a) => a,
            None => {
                proof {
                    reveal_strlit("missing required field `");
                    reveal_strlit("` (expected ");
                    reveal_strlit(")");
                }
                let mut detail = String::from_str("missing required field `");
                detail.append(field);
                detail.append("` (expected ");
                detail.append(expected.as_str());
                detail.append(")");
                return Err(crate::contract_text::module_contract_message(source, detail.as_str()));
            },
        };
        if !module_contract_type_matches(signatures, actual, expected.as_str()) {
            return Err(mismatch_message(source, field, expected.as_str(), actual));
        }
        i = i + 1;
    }
    let mut j: usize = 0;
    while j < optional.len()
        invariant
            j <= optional@.len(),
            ex == model_entries(exports@),
            op == model_entries(optional@),
            rq == model_entries(required@),
            required_problem(signatures@, ex, rq, 0, source_text(source)) is None,
            optional_problem(signatures@, ex, op, 0, source_text(source))
                == optional_problem(signatures@, ex, op, j as int, source_text(source)),
        decreases optional@.len() - j,
    {
        let field = optional[j].0.as_str();
        let expected = module_contract_expected_type(field, &optional[j].1, source)?;
        if let Some(actual) = record_get(exports, field) {
            if !module_contract_type_matches(signatures, actual, expected.as_str()) {
                return Err(mismatch_message(source, field, expected.as_str(), actual));
            }
        }
        j = j + 1;
    }
    Ok(())
}

} // verus!
