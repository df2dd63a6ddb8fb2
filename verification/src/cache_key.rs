//! Cache keys for pure function calls: every variable-length part of a key
//! is preceded by its byte count. A record and a module with the same
//! entries get the same key, and a path is encoded through its lossy text,
//! so two paths whose bytes decode to the same text share a key.
use vstd::prelude::*;
use vstd::string::*;
use vstd::utf8::encode_utf8;
use crate::value::{Value, ValueModel, model_list, model_entries};
use crate::text::{
    decimal, signed_decimal, hex_padded, push_decimal, push_signed_decimal, push_hex_padded, utf8_lossy,
    string_from_utf8_lossy,
};

verus! {

/// The length of a text in UTF-8 bytes.
pub open spec fn utf8_len(s: Seq<char>) -> nat {
    encode_utf8(s).len()
}

/// Bytes as lower-case hexadecimal, two digits each.
pub open spec fn hex_bytes(b: Seq<u8>) -> Seq<char>
    decreases b.len(),
{
    if b.len() == 0 { Seq::empty() } else { hex_bytes(b.drop_last()) + hex_padded(b.last() as nat, 2) }
}

/// A length-prefixed part: `:` then the byte length, `:`, and the text.
pub open spec fn framed(s: Seq<char>) -> Seq<char> {
    ":"@ + decimal(utf8_len(s)) + ":"@ + s
}

/// The key encoding of a value, or the name of the type that has none.
pub open spec fn encode_key(v: ValueModel) -> Result<Seq<char>, Seq<char>>
    decreases v, 0int,
{
    match v {
        ValueModel::Null => Ok("N"@),
        ValueModel::Bool(b) => Ok(if b { "B1"@ } else { "B0"@ }),
        ValueModel::Int(n) => Ok("I"@ + signed_decimal(n as int)),
        ValueModel::Float(bits) => Ok("F"@ + hex_padded(bits as nat, 16)),
        ValueModel::Duration(ms) => Ok("D"@ + decimal(ms as nat)),
        ValueModel::Str(s) => Ok("S"@ + decimal(utf8_len(s)) + ":"@ + s),
        ValueModel::Bytes(b) => Ok("Y"@ + decimal(b.len()) + ":"@ + hex_bytes(b)),
        ValueModel::Path(b) => Ok("P"@ + decimal(b.len()) + ":"@ + utf8_lossy(b)),
        ValueModel::Digest { algorithm, bytes } => Ok("G"@ + decimal(utf8_len(algorithm)) + ":"@ + algorithm
            + decimal(bytes.len()) + ":"@ + hex_bytes(bytes)),
        ValueModel::Regex(p) => Ok("X"@ + decimal(utf8_len(p)) + ":"@ + p),
        ValueModel::List(items) => encode_items(items, 0, "L"@ + decimal(items.len())),
        ValueModel::Dict(e) => encode_entries(e, 0, "M"@ + decimal(e.len())),
        ValueModel::Record(e) => encode_entries(e, 0, "R"@ + decimal(e.len())),
        ValueModel::Module(e) => encode_entries(e, 0, "R"@ + decimal(e.len())),
        ValueModel::Tag { name, fields } => encode_items(fields, 0, "T"@ + decimal(utf8_len(name)) + ":"@ + name
            + decimal(fields.len())),
        ValueModel::Stream { .. } => Err("Stream"@),
        ValueModel::ResultOk(_) | ValueModel::ResultErr(_) => Err("Result"@),
        ValueModel::Status { .. } => Err("Status"@),
        ValueModel::EnvPathList => Err("EnvPathList"@),
        ValueModel::Error { .. } => Err("Error"@),
        ValueModel::RunError { .. } => Err("ProcessError"@),
        ValueModel::Pure(_) => Err("Pure"@),
        ValueModel::Proc(_) => Err("Proc"@),
        ValueModel::Command(_) => Err("Command"@),
        ValueModel::ProcessHandle { .. } => Err("ProcessHandle"@),
        ValueModel::NetJob(_) => Err("NetJob"@),
        ValueModel::Unit => Err("Unit"@),
    }
}

/// `acc` followed by the framed encodings of items `i..`.
pub open spec fn encode_items(items: Seq<ValueModel>, i: int, acc: Seq<char>) -> Result<Seq<char>, Seq<char>>
    decreases items, items.len() - i,
{
    if i < 0 || i >= items.len() {
        Ok(acc)
    } else {
        match encode_key(items[i]) {
            Err(t) => Err(t),
            Ok(e) => encode_items(items, i + 1, acc + framed(e)),
        }
    }
}

/// `acc` followed by the framed keys and encodings of entries `i..`.
pub open spec fn encode_entries(e: Seq<(Seq<char>, ValueModel)>, i: int, acc: Seq<char>) -> Result<Seq<char>, Seq<char>>
    decreases e, e.len() - i,
{
    if i < 0 || i >= e.len() {
        Ok(acc)
    } else {
        proof { assert(decreases_to!(e => e[i])); }
        match encode_key(e[i].1) {
            Err(t) => Err(t),
            Ok(v) => encode_entries(e, i + 1, acc + framed(e[i].0) + framed(v)),
        }
    }
}

/// The key of a call: the framed function name's length and name, the
/// argument count, then each framed argument encoding.
pub open spec fn call_key(fn_name: Seq<char>, args: Seq<ValueModel>) -> Result<Seq<char>, Seq<char>> {
    encode_items(args, 0, decimal(utf8_len(fn_name)) + ":"@ + fn_name + decimal(args.len()))
}

} // verus!

verus! {

/// Whether an executable key result agrees with its specification: the same
/// key text, or the same refused type name.
pub open spec fn key_result_is(r: Result<String, &'static str>, spec: Result<Seq<char>, Seq<char>>) -> bool {
    match spec {
        Ok(e) => r is Ok && r->Ok_0@ == e,
        Err(t) => r is Err && r->Err_0@ == t,
    }
}

/// Appends `:`, the byte length of `s`, `:` and `s`.
fn push_framed(out: &mut String, s: &str)
    ensures
        final(out)@ == old(out)@ + framed(s@),
{
    let n = s.as_bytes().len();
    proof { reveal_strlit(":"); }
    out.append(":");
    push_decimal(out, n as u64);
    out.append(":");
    out.append(s);
    assert(final(out)@ =~= old(out)@ + framed(s@));
}

/// Appends the byte length of `s`, `:` and `s`.
fn push_sized(out: &mut String, s: &str)
    ensures
        final(out)@ == old(out)@ + decimal(utf8_len(s@)) + ":"@ + s@,
{
    let n = s.as_bytes().len();
    proof { reveal_strlit(":"); }
    push_decimal(out, n as u64);
    out.append(":");
    out.append(s);
    assert(final(out)@ =~= old(out)@ + decimal(utf8_len(s@)) + ":"@ + s@);
}

/// Appends the bytes as two-digit lower-case hexadecimal.
fn push_hex_bytes(out: &mut String, b: &[u8])
    ensures
        final(out)@ == old(out)@ + hex_bytes(b@),
{
    let ghost start = out@;
    let mut i: usize = 0;
    while i < b.len()
        invariant
            i <= b@.len(),
            out@ == start + hex_bytes(b@.subrange(0, i as int)),
        decreases b@.len() - i,
    {
        proof {
            assert(b@.subrange(0, i + 1).drop_last() =~= b@.subrange(0, i as int));
        }
        push_hex_padded(out, b[i] as u64, 2);
        i = i + 1;
        assert(out@ =~= start + hex_bytes(b@.subrange(0, i as int)));
    }
    assert(b@.subrange(0, b@.len() as int) =~= b@);
}

/// Appends the framed encodings of the items in turn, or names the first
/// item type that has none.
fn push_item_keys(out: &mut String, items: &Vec<Value>) -> (r: Result<(), &'static str>)
    ensures
        match encode_items(model_list(items@), 0, old(out)@) {
            Ok(e) => r is Ok && final(out)@ == e,
            Err(t) => r is Err && r->Err_0@ == t,
        },
    decreases items, 0nat,
{
    let ghost ml = model_list(items@);
    let mut i: usize = 0;
    while i < items.len()
        invariant
            i <= items@.len(),
            ml == model_list(items@),
            encode_items(ml, 0, old(out)@) == encode_items(ml, i as int, out@),
        decreases items@.len() - i,
    {
        proof { vstd::std_specs::vec::axiom_vec_index_decreases(*items, i as int); }
        let enc = encode_cache_key_value(&items[i]);
        assert(ml[i as int] == items@[i as int]@);
        match enc {
            Err(t) => { return Err(t); },
            Ok(e) => {
                push_framed(out, e.as_str());
            },
        }
        i = i + 1;
    }
    Ok(())
}

/// Appends the framed keys and value encodings of the entries in turn, or
/// names the first value type that has none.
fn push_entry_keys(out: &mut String, entries: &Vec<(String, Value)>) -> (r: Result<(), &'static str>)
    ensures
        match encode_entries(model_entries(entries@), 0, old(out)@) {
            Ok(e) => r is Ok && final(out)@ == e,
            Err(t) => r is Err && r->Err_0@ == t,
        },
    decreases entries, 0nat,
{
    let ghost me = model_entries(entries@);
    let mut i: usize = 0;
    while i < entries.len()
        invariant
            i <= entries@.len(),
            me == model_entries(entries@),
            encode_entries(me, 0, old(out)@) == encode_entries(me, i as int, out@),
        decreases entries@.len() - i,
    {
        proof { vstd::std_specs::vec::axiom_vec_index_decreases(*entries, i as int); }
        let enc = encode_cache_key_value(&entries[i].1);
        assert(me[i as int] == (entries@[i as int].0@, entries@[i as int].1@));
        match enc {
            Err(t) => { return Err(t); },
            Ok(e) => {
                push_framed(out, entries[i].0.as_str());
                push_framed(out, e.as_str());
            },
        }
        i = i + 1;
    }
    Ok(())
}

/// The cache-key encoding of a value: a type letter, then its content with
/// every variable-length part preceded by its length. Values that cannot
/// take part in a key (streams, results, statuses, errors, handles, unit)
/// are refused with the name of their type.
pub fn encode_cache_key_value(value: &Value) -> (r: Result<String, &'static str>)
    ensures
        key_result_is(r, encode_key(value@)),
    decreases value, 1nat,
{
    proof {
        reveal_strlit("N"); reveal_strlit("B1"); reveal_strlit("B0"); reveal_strlit("I");
        reveal_strlit("F"); reveal_strlit("D"); reveal_strlit("S"); reveal_strlit("Y");
        reveal_strlit("P"); reveal_strlit("G"); reveal_strlit("X"); reveal_strlit("L");
        reveal_strlit("M"); reveal_strlit("R"); reveal_strlit("T"); reveal_strlit(":");
    }
    match value {
        Value::Null => Ok(String::from_str("N")),
        Value::Bool(b) => Ok(if *b { String::from_str("B1") } else { String::from_str("B0") }),
        Value::Int(n) => {
            let mut out = String::from_str("I");
            push_signed_decimal(&mut out, *n);
            Ok(out)
        },
        Value::Float(bits) => {
            let mut out = String::from_str("F");
            push_hex_padded(&mut out, *bits, 16);
            Ok(out)
        },
        Value::Duration(ms) => {
            let mut out = String::from_str("D");
            push_decimal(&mut out, *ms);
            Ok(out)
        },
        Value::Str(s) => {
            let mut out = String::from_str("S");
            push_sized(&mut out, s.as_str());
            Ok(out)
        },
        Value::Bytes(b) => {
            let mut out = String::from_str("Y");
            push_decimal(&mut out, b.len() as u64);
            out.append(":");
            push_hex_bytes(&mut out, b.as_slice());
            Ok(out)
        },
        Value::Path(b) => {
            let mut out = String::from_str("P");
            push_decimal(&mut out, b.len() as u64);
            out.append(":");
            let text = string_from_utf8_lossy(b.as_slice());
            out.append(text.as_str());
            Ok(out)
        },
        Value::Digest { algorithm, bytes } => {
            let mut out = String::from_str("G");
            push_sized(&mut out, algorithm.as_str());
            push_decimal(&mut out, bytes.len() as u64);
            out.append(":");
            push_hex_bytes(&mut out, bytes.as_slice());
            Ok(out)
        },
        Value::Regex(p) => {
            let mut out = String::from_str("X");
            push_sized(&mut out, p.as_str());
            Ok(out)
        },
        Value::List(items) => {
            let mut out = String::from_str("L");
            push_decimal(&mut out, items.len() as u64);
            match push_item_keys(&mut out, items) {
                Ok(()) => Ok(out),
                Err(t) => Err(t),
            }
        },
        Value::Dict(e) => {
            let mut out = String::from_str("M");
            push_decimal(&mut out, e.len() as u64);
            match push_entry_keys(&mut out, e) {
                Ok(()) => Ok(out),
                Err(t) => Err(t),
            }
        },
        Value::Record(e) | Value::Module(e) => {
            let mut out = String::from_str("R");
            push_decimal(&mut out, e.len() as u64);
            match push_entry_keys(&mut out, e) {
                Ok(()) => Ok(out),
                Err(t) => Err(t),
            }
        },
        Value::Tag { name, fields } => {
            let mut out = String::from_str("T");
            push_sized(&mut out, name.as_str());
            push_decimal(&mut out, fields.len() as u64);
            match push_item_keys(&mut out, fields) {
                Ok(()) => Ok(out),
                Err(t) => Err(t),
            }
        },
        Value::Stream(_) => Err("Stream"),
        Value::ResultOk(_) | Value::ResultErr(_) => Err("Result"),
        Value::Status { .. } => Err("Status"),
        Value::EnvPathList => Err("EnvPathList"),
        Value::Error(_) => Err("Error"),
        Value::RunError { .. } => Err("ProcessError"),
        Value::Pure(_) => Err("Pure"),
        Value::Proc(_) => Err("Proc"),
        Value::Command(_) => Err("Command"),
        Value::ProcessHandle { .. } => Err("ProcessHandle"),
        Value::NetJob(_) => Err("NetJob"),
        Value::Unit => Err("Unit"),
    }
}

/// The memo key of a call of `fn_name` on `args`: the name's byte length,
/// `:`, the name, the argument count, then each argument's framed
/// encoding. Fails with the type name of the first argument that cannot be
/// encoded.
pub fn utils_cache_key(fn_name: &str, args: &[Value]) -> (r: Result<String, &'static str>)
    ensures
        key_result_is(r, call_key(fn_name@, model_list(args@))),
{
    let ghost ml = model_list(args@);
    let mut key = String::from_str("");
    proof { reveal_strlit(""); }
    push_sized(&mut key, fn_name);
    push_decimal(&mut key, args.len() as u64);
    assert(key@ =~= decimal(utf8_len(fn_name@)) + ":"@ + fn_name@ + decimal(ml.len()));
    let mut i: usize = 0;
    while i < args.len()
        invariant
            i <= args@.len(),
            ml == model_list(args@),
            call_key(fn_name@, ml) == encode_items(ml, i as int, key@),
        decreases args@.len() - i,
    {
        let enc = encode_cache_key_value(&args[i]);
        assert(ml[i as int] == args@[i as int]@);
        match enc {
            Err(t) => { return Err(t); },
            Ok(e) => {
                push_framed(&mut key, e.as_str());
            },
        }
        i = i + 1;
    }
    Ok(key)
}

} // verus!
