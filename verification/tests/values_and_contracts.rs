use indexed_run::cache_key::{encode_cache_key_value, utils_cache_key};
use indexed_run::contract::{
    module_contract_dynamic_type, module_contract_expected_type, module_contract_type_matches, validate_module_contract,
    ModuleExportSignature,
};
use indexed_run::text::{display_spawn_argv, str_find, str_trim};
use indexed_run::types::{module_contract_type_from_str, test_value_matches_type, BuiltinTypeName, Type};
use indexed_run::evaluator::Evaluator;
use indexed_run::interp::apply_binary;
use indexed_run::ir::BinaryOp;
use indexed_run::value::{values_equal, Span, Value};
use rustc_hash::FxHashMap;

fn s(text: &str) -> Value {
    Value::Str(text.to_string())
}

fn entries(pairs: Vec<(&str, Value)>) -> Vec<(String, Value)> {
    pairs.into_iter().map(|(k, v)| (k.to_string(), v)).collect()
}

fn no_signatures() -> FxHashMap<u32, ModuleExportSignature> {
    FxHashMap::default()
}

#[test]
fn cache_keys_of_scalars() {
    assert_eq!(encode_cache_key_value(&Value::Null), Ok("N".to_string()));
    assert_eq!(encode_cache_key_value(&Value::Bool(true)), Ok("B1".to_string()));
    assert_eq!(encode_cache_key_value(&Value::Bool(false)), Ok("B0".to_string()));
    assert_eq!(encode_cache_key_value(&Value::Int(-5)), Ok("I-5".to_string()));
    assert_eq!(encode_cache_key_value(&Value::Duration(1500)), Ok("D1500".to_string()));
    assert_eq!(encode_cache_key_value(&Value::Float(0x3ff0_0000_0000_0000)), Ok("F3ff0000000000000".to_string()));
    assert_eq!(encode_cache_key_value(&s("héllo")), Ok("S6:héllo".to_string()));
    assert_eq!(encode_cache_key_value(&Value::Bytes(vec![0xab, 0x01])), Ok("Y2:ab01".to_string()));
}

#[test]
fn cache_keys_of_containers_frame_each_part() {
    let list = Value::List(vec![Value::Int(1), s("x")]);
    assert_eq!(encode_cache_key_value(&list), Ok("L2:2:I1:4:S1:x".to_string()));
    let record = Value::Record(entries(vec![("a", Value::Int(1))]));
    assert_eq!(encode_cache_key_value(&record), Ok("R1:1:a:2:I1".to_string()));
    let dict = Value::Dict(entries(vec![("k", Value::Null)]));
    assert_eq!(encode_cache_key_value(&dict), Ok("M1:1:k:1:N".to_string()));
}

#[test]
fn cache_keys_refuse_unkeyable_values() {
    assert_eq!(encode_cache_key_value(&Value::Unit), Err("Unit"));
    assert_eq!(encode_cache_key_value(&Value::Proc(3)), Err("Proc"));
    let nested = Value::List(vec![Value::Int(1), Value::ResultOk(Box::new(Value::Null))]);
    assert_eq!(encode_cache_key_value(&nested), Err("Result"));
}

#[test]
fn a_call_key_names_the_function_and_its_arguments() {
    assert_eq!(utils_cache_key("f", &[Value::Int(1), s("ab")]), Ok("1:f2:2:I1:5:S2:ab".to_string()));
    assert_eq!(utils_cache_key("g", &[]), Ok("1:g0".to_string()));
    assert_eq!(utils_cache_key("f", &[Value::Status { success: true, kind: "exit".to_string(), segments: vec![] }]), Err("Status"));
}

#[test]
fn dynamic_types_name_homogeneous_containers() {
    assert_eq!(module_contract_dynamic_type(&Value::Int(1)), "Int");
    assert_eq!(module_contract_dynamic_type(&Value::List(vec![Value::Int(1), Value::Int(2)])), "List[Int]");
    assert_eq!(module_contract_dynamic_type(&Value::List(vec![Value::Int(1), s("a")])), "List[Any]");
    assert_eq!(module_contract_dynamic_type(&Value::List(vec![])), "List[Any]");
    assert_eq!(module_contract_dynamic_type(&Value::Dict(entries(vec![("a", s("x"))]))), "Map[Str]");
    assert_eq!(module_contract_dynamic_type(&Value::ResultOk(Box::new(Value::Int(1)))), "Result[Int, Error]");
    assert_eq!(module_contract_dynamic_type(&Value::ResultErr(Box::new(s("e")))), "Result[Any, Str]");
}

#[test]
fn contract_type_names_are_matched_structurally() {
    let sigs = no_signatures();
    assert!(module_contract_type_matches(&sigs, &Value::Int(3), "Int"));
    assert!(module_contract_type_matches(&sigs, &Value::Int(3), " Any "));
    assert!(!module_contract_type_matches(&sigs, &Value::Int(3), "Str"));
    assert!(!module_contract_type_matches(&sigs, &Value::Int(3), "Unknown"));
    let ints = Value::List(vec![Value::Int(1), Value::Int(2)]);
    assert!(module_contract_type_matches(&sigs, &ints, "List[Int]"));
    assert!(!module_contract_type_matches(&sigs, &ints, "List[Str]"));
    let ok = Value::ResultOk(Box::new(Value::Int(1)));
    assert!(module_contract_type_matches(&sigs, &ok, "Result[Int, Str]"));
    let err = Value::ResultErr(Box::new(Value::Int(1)));
    assert!(!module_contract_type_matches(&sigs, &err, "Result[Int, Str]"));
    assert!(!module_contract_type_matches(&sigs, &Value::Proc(1), "Proc(Int) -> Int"));
}

#[test]
fn an_expected_type_must_be_a_string() {
    assert_eq!(module_contract_expected_type("x", &s("  Int "), None), Ok("Int".to_string()));
    assert_eq!(
        module_contract_expected_type("x", &Value::Int(1), Some("mod.xsh")),
        Err("mod.xsh: contract field `x` expected type name Str, found Int".to_string())
    );
    assert_eq!(
        module_contract_expected_type("x", &Value::Int(1), Some("")),
        Err("contract field `x` expected type name Str, found Int".to_string())
    );
}

#[test]
fn module_contracts_report_the_first_problem() {
    let sigs = no_signatures();
    let exports = entries(vec![("a", Value::Int(1)), ("b", s("x"))]);
    let required = entries(vec![("a", s("Int"))]);
    let optional = entries(vec![("b", s("Str")), ("c", s("Bool"))]);
    assert_eq!(validate_module_contract(&sigs, &exports, &required, &optional, None), Ok(()));

    let missing = entries(vec![("z", s("Int"))]);
    assert_eq!(
        validate_module_contract(&sigs, &exports, &missing, &vec![], Some("src")),
        Err("src: missing required field `z` (expected Int)".to_string())
    );
    let wrong = entries(vec![("b", s("Int"))]);
    assert_eq!(
        validate_module_contract(&sigs, &exports, &wrong, &vec![], None),
        Err("field `b` expected Int, found Str".to_string())
    );
    let wrong_optional = entries(vec![("a", s("List[Int]"))]);
    assert_eq!(
        validate_module_contract(&sigs, &exports, &vec![], &wrong_optional, None),
        Err("field `a` expected List[Int], found Int".to_string())
    );
}

#[test]
fn contract_type_texts_parse_to_types() {
    assert_eq!(format!("{:?}", module_contract_type_from_str(" Int ")), "Some(Int)");
    assert_eq!(format!("{:?}", module_contract_type_from_str("List[Str]")), "Some(List(Str))");
    assert_eq!(format!("{:?}", module_contract_type_from_str("Map[Bool]")), "Some(Dict(Bool))");
    assert_eq!(format!("{:?}", module_contract_type_from_str("Result[Int]")), "Some(Result(Int, Error))");
    assert_eq!(format!("{:?}", module_contract_type_from_str("Result[Int, Str]")), "Some(Result(Int, Str))");
    assert!(module_contract_type_from_str("Widget").is_none());
    assert!(module_contract_type_from_str("List[Widget]").is_none());
    assert!(Type::from_name("Widget").is_unknown());
    assert!(!Type::from_name("Path").is_unknown());
    assert_eq!(BuiltinTypeName::parse("Int"), Some(BuiltinTypeName::Int));
    assert_eq!(BuiltinTypeName::parse("Nope"), None);
}

#[test]
fn test_types_admit_their_values() {
    assert!(test_value_matches_type(&Value::Int(1), &Type::Int));
    assert!(!test_value_matches_type(&s("a"), &Type::Int));
    assert!(test_value_matches_type(&Value::List(vec![Value::Int(1)]), &Type::List(Box::new(Type::Int))));
    assert!(!test_value_matches_type(&Value::List(vec![s("a")]), &Type::List(Box::new(Type::Int))));
    assert!(test_value_matches_type(&s("a"), &Type::Any));
}

#[test]
fn value_equality_is_structural() {
    assert!(values_equal(&Value::List(vec![Value::Int(1), s("a")]), &Value::List(vec![Value::Int(1), s("a")])));
    assert!(!values_equal(&Value::List(vec![Value::Int(1)]), &Value::List(vec![Value::Int(2)])));
    assert!(!values_equal(&Value::Int(1), &s("1")));
    let r1 = Value::Record(entries(vec![("a", Value::Bool(true))]));
    let r2 = Value::Record(entries(vec![("a", Value::Bool(true))]));
    assert!(values_equal(&r1, &r2));
}

#[test]
fn text_helpers() {
    assert_eq!(str_trim("  a b \t"), "a b");
    assert_eq!(str_trim("   "), "");
    assert_eq!(str_find("hello", "ll"), Some(2));
    assert_eq!(str_find("héllo", "llo"), Some(2));
    assert_eq!(str_find("hello", "z"), None);
    assert_eq!(str_find("hello", ""), Some(0));
    assert_eq!(display_spawn_argv(b"ls", &[b"-l".to_vec(), b"/tmp".to_vec()]), "ls -l /tmp");
    assert_eq!(display_spawn_argv(b"echo", &[vec![0xff]]), "echo \u{fffd}");
}

fn divide(op: BinaryOp, a: Value, b: Value) -> String {
    match apply_binary(op, a, b, Span::new(0, 0, 0)) {
        Ok(v) => format!("{v:?}"),
        Err(e) => format!("{}: {}", e.kind, e.message),
    }
}

#[test]
fn integer_division_truncates_toward_zero() {
    assert_eq!(divide(BinaryOp::Div, Value::Int(-7), Value::Int(2)), "Int(-3)");
    assert_eq!(divide(BinaryOp::Rem, Value::Int(-7), Value::Int(2)), "Int(-1)");
    assert_eq!(divide(BinaryOp::Div, Value::Int(7), Value::Int(-2)), "Int(-3)");
    assert_eq!(divide(BinaryOp::Rem, Value::Int(7), Value::Int(-2)), "Int(1)");
    assert_eq!(divide(BinaryOp::Div, Value::Int(-8), Value::Int(-2)), "Int(4)");
    assert_eq!(divide(BinaryOp::Div, Value::Int(5), Value::Int(0)), "division-by-zero: division by zero");
    assert_eq!(divide(BinaryOp::Rem, Value::Int(5), Value::Int(0)), "division-by-zero: division by zero");
    assert_eq!(divide(BinaryOp::Div, Value::Int(i64::MIN), Value::Int(-1)), "overflow: integer overflow");
    assert_eq!(divide(BinaryOp::Rem, Value::Int(i64::MIN), Value::Int(-1)), "Int(0)");
    assert_eq!(
        divide(BinaryOp::Div, Value::Str("a".to_string()), Value::Int(1)),
        "type-error: `/` cannot combine Str and Int"
    );
}

fn field(base: Value, name: &str) -> String {
    let mut ev = Evaluator::new(Vec::new(), b"/".to_vec());
    match ev.indexed_field_value(base, name, Span::new(0, 0, 0)) {
        Ok(v) => format!("{v:?}"),
        Err(e) => format!("{}: {}", e.kind, e.message),
    }
}

#[test]
fn statuses_and_process_handles_answer_their_fields() {
    let status = || Value::Status {
        success: false,
        kind: "signal".to_string(),
        segments: vec![Value::Record(vec![("code".to_string(), Value::Int(9))])],
    };
    assert_eq!(field(status(), "ok"), "Bool(false)");
    assert_eq!(field(status(), "success"), "Bool(false)");
    assert_eq!(field(status(), "kind"), "Str(\"signal\")");
    assert_eq!(field(status(), "segments"), "List([Record([(\"code\", Int(9))])])");
    assert_eq!(field(status(), "code"), "missing-field: code");
    let handle = || Value::ProcessHandle {
        pid: 42,
        command: "ls".to_string(),
        argv: vec!["-l".to_string(), "/".to_string()],
        detached: true,
    };
    assert_eq!(field(handle(), "pid"), "Int(42)");
    assert_eq!(field(handle(), "command"), "Str(\"ls\")");
    assert_eq!(field(handle(), "argv"), "List([Str(\"-l\"), Str(\"/\")])");
    assert_eq!(field(handle(), "detached"), "Bool(true)");
    assert_eq!(field(handle(), "name"), "missing-field: name");
}
