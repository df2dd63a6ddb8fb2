//! What a `run` asks the host for: the target and argv, the working
//! directory, the environment with the command's overlay, the redirections,
//! the time and CPU limits; computed from a command plan or from the
//! indexed IR of a `run` expression.
use vstd::prelude::*;
use vstd::string::*;
use vstd::utf8::encode_utf8;
use crate::value::{Value, ValueModel, Span, RuntimeError, ErrorModel, err_model, spec_type_name};
use crate::text::{signed_decimal, push_signed_decimal, spec_trim, str_trim, utf8_lossy, string_from_utf8_lossy};
use crate::records::{PathValue, host_path_of, host_path_from};
use crate::evaluator::{Evaluator, cache_valid};
use crate::ir::{FullProgram, Name};
use crate::runs::{RunArg, RunEnv, RunRedirection, RedirectionKind};
use crate::semantics::{Machine, Flow, ev_expr};
use crate::interp::{machine_of, kept, fault_error, IndexedFlow};

verus! {

/// Byte strings in lexicographic order, a proper prefix first.
pub open spec fn bytes_lt(a: Seq<u8>, b: Seq<u8>) -> bool
    decreases a.len(),
{
    if a.len() == 0 {
        b.len() > 0
    } else if b.len() == 0 {
        false
    } else if a[0] != b[0] {
        a[0] < b[0]
    } else {
        bytes_lt(a.drop_first(), b.drop_first())
    }
}

/// Whether `a` comes before `b`.
pub fn bytes_less(a: &Vec<u8>, b: &Vec<u8>) -> (r: bool)
    ensures
        r == bytes_lt(a@, b@),
{
    let mut i: usize = 0;
    assert(a@.skip(0) =~= a@ && b@.skip(0) =~= b@);
    while i < a.len() && i < b.len()
        invariant
            i <= a@.len(),
            i <= b@.len(),
            bytes_lt(a@, b@) == bytes_lt(a@.skip(i as int), b@.skip(i as int)),
        decreases a@.len() - i,
    {
        if a[i] != b[i] {
            return a[i] < b[i];
        }
        assert(a@.skip(i as int).drop_first() =~= a@.skip(i + 1));
        assert(b@.skip(i as int).drop_first() =~= b@.skip(i + 1));
        i = i + 1;
    }
    b.len() > a.len()
}

/// An environment table, kept sorted by name: `k` set to `v`, replacing the
/// entry of the same name or inserted in order.
pub open spec fn map_put(s: Seq<(Seq<u8>, Seq<u8>)>, k: Seq<u8>, v: Seq<u8>) -> Seq<(Seq<u8>, Seq<u8>)>
    decreases s.len(),
{
    if s.len() == 0 {
        seq![(k, v)]
    } else if s[0].0 == k {
        s.update(0, (k, v))
    } else if bytes_lt(k, s[0].0) {
        seq![(k, v)] + s
    } else {
        seq![s[0]] + map_put(s.drop_first(), k, v)
    }
}

/// `s` with every entry of `entries` put in turn.
pub open spec fn map_put_all(s: Seq<(Seq<u8>, Seq<u8>)>, entries: Seq<(Seq<u8>, Seq<u8>)>) -> Seq<(Seq<u8>, Seq<u8>)>
    decreases entries.len(),
{
    if entries.len() == 0 {
        s
    } else {
        map_put_all(map_put(s, entries[0].0, entries[0].1), entries.drop_first())
    }
}

/// The byte contents of an environment table.
pub open spec fn env_view(s: Seq<(Vec<u8>, Vec<u8>)>) -> Seq<(Seq<u8>, Seq<u8>)> {
    Seq::new(s.len(), |i: int| (s[i].0@, s[i].1@))
}

proof fn lemma_map_put_step(s: Seq<(Seq<u8>, Seq<u8>)>, k: Seq<u8>, v: Seq<u8>, i: int)
    requires
        0 <= i < s.len(),
        s[i].0 != k,
        !bytes_lt(k, s[i].0),
    ensures
        map_put(s.skip(i), k, v) == seq![s[i]] + map_put(s.skip(i + 1), k, v),
{
    assert(s.skip(i).drop_first() =~= s.skip(i + 1));
}

/// Sets `k` to `v` in a sorted environment table.
pub fn env_put(table: &mut Vec<(Vec<u8>, Vec<u8>)>, k: Vec<u8>, v: Vec<u8>)
    ensures
        env_view(final(table)@) == map_put(env_view(old(table)@), k@, v@),
{
    let ghost s = env_view(table@);
    let mut i: usize = 0;
    assert(s.skip(0) =~= s && s.take(0) =~= Seq::<(Seq<u8>, Seq<u8>)>::empty());
    while i < table.len()
        invariant
            i <= table@.len(),
            s == env_view(table@),
            s == env_view(old(table)@),
            map_put(s, k@, v@) == s.take(i as int) + map_put(s.skip(i as int), k@, v@),
        decreases table@.len() - i,
    {
        let same = crate::value::bytes_equal(&table[i].0, &k);
        if same {
            let ghost before = env_view(table@);
            assert(s.skip(i as int)[0].0 == k@);
            assert(map_put(s.skip(i as int), k@, v@) == s.skip(i as int).update(0, (k@, v@)));
            table.set(i, (k, v));
            assert(env_view(table@) =~= s.take(i as int) + s.skip(i as int).update(0, (k@, v@)));
            return;
        }
        if bytes_less(&k, &table[i].0) {
            assert(map_put(s.skip(i as int), k@, v@) == seq![(k@, v@)] + s.skip(i as int));
            table.insert(i, (k, v));
            assert(env_view(table@) =~= s.take(i as int) + (seq![(k@, v@)] + s.skip(i as int)));
            return;
        }
        proof {
            lemma_map_put_step(s, k@, v@, i as int);
            assert(s.take(i as int) + seq![s[i as int]] =~= s.take(i + 1));
            assert(s.take(i as int) + (seq![s[i as int]] + map_put(s.skip(i + 1), k@, v@))
                =~= s.take(i + 1) + map_put(s.skip(i + 1), k@, v@));
        }
        i = i + 1;
    }
    proof {
        assert(s.skip(i as int) =~= Seq::<(Seq<u8>, Seq<u8>)>::empty());
        assert(s.take(i as int) =~= s);
    }
    table.push((k, v));
    assert(env_view(table@) =~= s + seq![(k@, v@)]);
}

/// The argv item a value stands for: a string's UTF-8 bytes, a byte string
/// or a path as it is, an integer in decimal; none of them may hold NUL.
pub open spec fn argv_item_of(v: ValueModel, span: Span) -> Result<Seq<u8>, ErrorModel> {
    let bytes = match v {
        ValueModel::Str(s) => Some(encode_utf8(s)),
        ValueModel::Bytes(b) => Some(b),
        ValueModel::Path(b) => Some(b),
        ValueModel::Int(n) => Some(encode_utf8(signed_decimal(n as int))),
        _ => None,
    };
    match bytes {
        None => Err(err_model("argv-conversion"@, "cannot pass "@ + spec_type_name(v) + " as a process argument"@, Some(span))),
        Some(b) => if b.contains(0u8) {
            Err(err_model("argv-conversion"@, "process arguments cannot contain NUL"@, Some(span)))
        } else {
            Ok(b)
        },
    }
}

/// The argv items a list spreads into, item by item.
pub open spec fn spliced_items(items: Seq<ValueModel>, span: Span) -> Result<Seq<Seq<u8>>, ErrorModel>
    decreases items.len(),
{
    if items.len() == 0 {
        Ok(Seq::empty())
    } else {
        match spliced_items(items.drop_last(), span) {
            Err(e) => Err(e),
            Ok(prefix) => match argv_item_of(items.last(), span) {
                Err(e) => Err(e),
                Ok(b) => Ok(prefix.push(b)),
            },
        }
    }
}

/// The argv items a spliced value gives: a list's items.
pub open spec fn splice_of(v: ValueModel, span: Span) -> Result<Seq<Seq<u8>>, ErrorModel> {
    match v {
        ValueModel::List(items) => spliced_items(items, span),
        _ => Err(err_model("argv-conversion"@, "cannot splice "@ + spec_type_name(v) + " into argv"@, Some(span))),
    }
}

fn contains_nul(b: &Vec<u8>) -> (r: bool)
    ensures
        r == b@.contains(0u8),
{
    let mut i: usize = 0;
    while i < b.len()
        invariant
            i <= b@.len(),
            forall|k: int| 0 <= k < i ==> b@[k] != 0u8,
        decreases b@.len() - i,
    {
        if b[i] == 0u8 {
            assert(b@[i as int] == 0u8);
            return true;
        }
        i = i + 1;
    }
    false
}

/// The argv item a value stands for.
pub fn value_to_argv_bytes(value: &Value, span: Span) -> (r: Result<Vec<u8>, RuntimeError>)
    ensures
        match argv_item_of(value@, span) {
            Ok(b) => r matches Ok(x) && x@ == b,
            Err(e) => r matches Err(x) && x@ == e,
        },
{
    let bytes: Vec<u8> = match value {
        Value::Str(s) => s.as_str().as_bytes_vec(),
        Value::Bytes(b) => {
            let c = b.clone();
            assert(c@ =~= b@);
            c
        },
        Value::Path(b) => {
            let c = b.clone();
            assert(c@ =~= b@);
            c
        },
        Value::Int(n) => {
            let mut text = String::from_str("");
            proof { reveal_strlit(""); }
            push_signed_decimal(&mut text, *n);
            assert(text@ =~= signed_decimal(*n as int));
            text.as_str().as_bytes_vec()
        },
        other => {
            proof {
                reveal_strlit("cannot pass ");
                reveal_strlit(" as a process argument");
            }
            let mut message = String::from_str("cannot pass ");
            message.append(other.type_label());
            message.append(" as a process argument");
            return Err(RuntimeError::new_owned("argv-conversion", message).with_span(span));
        },
    };
    if contains_nul(&bytes) {
        return Err(RuntimeError::new("argv-conversion", "process arguments cannot contain NUL").with_span(span));
    }
    Ok(bytes)
}

/// The argv items a spliced value gives.
pub fn splice_to_argv(value: &Value, span: Span) -> (r: Result<Vec<Vec<u8>>, RuntimeError>)
    ensures
        match splice_of(value@, span) {
            Ok(items) => r matches Ok(x) && crate::text::byte_views(x@) == items,
            Err(e) => r matches Err(x) && x@ == e,
        },
{
    let items = match value {
        Value::List(items) => items,
        other => {
            proof {
                reveal_strlit("cannot splice ");
                reveal_strlit(" into argv");
            }
            let mut message = String::from_str("cannot splice ");
            message.append(other.type_label());
            message.append(" into argv");
            return Err(RuntimeError::new_owned("argv-conversion", message).with_span(span));
        },
    };
    let ghost ms = crate::value::model_list(items@);
    assert(value@ == ValueModel::List(ms));
    let mut out: Vec<Vec<u8>> = Vec::new();
    let mut i: usize = 0;
    assert(ms.take(0) =~= Seq::<ValueModel>::empty());
    assert(crate::text::byte_views(out@) =~= Seq::<Seq<u8>>::empty());
    while i < items.len()
        invariant
            ms == crate::value::model_list(items@),
            value@ == ValueModel::List(ms),
            i <= items@.len(),
            spliced_items(ms.take(i as int), span) == Ok::<Seq<Seq<u8>>, ErrorModel>(crate::text::byte_views(out@)),
        decreases items@.len() - i,
    {
        assert(ms.take(i + 1).drop_last() =~= ms.take(i as int));
        let b = match value_to_argv_bytes(&items[i], span) {
            Ok(b) => b,
            Err(e) => {
                assert(ms.take(i + 1).last() == ms[i as int]);
                assert(spliced_items(ms.take(i + 1), span) == Err::<Seq<Seq<u8>>, ErrorModel>(e@));
                proof { lemma_spliced_err(ms, (i + 1) as nat, span); }
                return Err(e);
            },
        };
        let ghost before = crate::text::byte_views(out@);
        out.push(b);
        assert(crate::text::byte_views(out@) =~= before.push(b@));
        i = i + 1;
    }
    assert(ms.take(i as int) =~= ms);
    Ok(out)
}

/// An error in a prefix of the items is the error of all of them.
proof fn lemma_spliced_err(items: Seq<ValueModel>, n: nat, span: Span)
    requires
        n <= items.len(),
        spliced_items(items.take(n as int), span) is Err,
    ensures
        spliced_items(items, span) == spliced_items(items.take(n as int), span),
    decreases items.len() - n,
{
    if n < items.len() {
        assert(items.take((n + 1) as int).drop_last() =~= items.take(n as int));
        lemma_spliced_err(items, n + 1, span);
    } else {
        assert(items.take(n as int) =~= items);
    }
}

} // verus!

verus! {

/// Whether a character is an ASCII decimal digit.
pub open spec fn is_digit(c: char) -> bool {
    '0' <= c && c <= '9'
}

/// The number decimal digits spell.
pub open spec fn digits_value(ds: Seq<char>) -> int
    decreases ds.len(),
{
    if ds.len() == 0 { 0 } else { digits_value(ds.drop_last()) * 10 + (ds.last() as int - '0' as int) }
}

/// Whether every character is a digit.
pub open spec fn all_digits(ds: Seq<char>) -> bool {
    forall|i: int| 0 <= i < ds.len() ==> is_digit(#[trigger] ds[i])
}

/// The `i32` a text spells, as `str::parse` reads it: an optional sign and
/// at least one digit, in range.
pub open spec fn parse_i32_of(s: Seq<char>) -> Option<i32> {
    let neg = s.len() > 0 && s[0] == '-';
    let ds = if s.len() > 0 && (s[0] == '-' || s[0] == '+') { s.drop_first() } else { s };
    if ds.len() == 0 || !all_digits(ds) {
        None
    } else {
        let v = if neg { -digits_value(ds) } else { digits_value(ds) };
        if i32::MIN <= v <= i32::MAX { Some(v as i32) } else { None }
    }
}

proof fn lemma_digits_grow(ds: Seq<char>, k: nat)
    requires
        k <= ds.len(),
        all_digits(ds),
    ensures
        0 <= digits_value(ds.take(k as int)) <= digits_value(ds),
    decreases ds.len() - k,
{
    if k < ds.len() {
        lemma_digits_grow(ds, k + 1);
        let t = ds.take((k + 1) as int);
        assert(t.drop_last() =~= ds.take(k as int));
        assert(is_digit(ds[k as int]));
    } else {
        assert(ds.take(k as int) =~= ds);
        lemma_digits_nonneg(ds);
    }
}

proof fn lemma_digits_nonneg(ds: Seq<char>)
    requires
        all_digits(ds),
    ensures
        digits_value(ds) >= 0,
    decreases ds.len(),
{
    if ds.len() > 0 {
        assert(all_digits(ds.drop_last()));
        lemma_digits_nonneg(ds.drop_last());
        assert(is_digit(ds[ds.len() - 1]));
    }
}

/// Reads an `i32` from a text.
pub fn parse_i32(s: &str) -> (r: Option<i32>)
    ensures
        r == parse_i32_of(s@),
{
    let n = s.unicode_len();
    let mut start: usize = 0;
    let mut neg = false;
    if n > 0 {
        let c = s.get_char(0);
        if c == '-' {
            neg = true;
            start = 1;
        } else if c == '+' {
            start = 1;
        }
    }
    let ghost ds = if s@.len() > 0 && (s@[0] == '-' || s@[0] == '+') { s@.drop_first() } else { s@ };
    assert(ds =~= s@.skip(start as int));
    if start >= n {
        return None;
    }
    let mut acc: i64 = 0;
    let mut i: usize = start;
    assert(ds.take(0) =~= Seq::<char>::empty());
    while i < n
        invariant
            n == s@.len(),
            start <= i <= n,
            ds =~= s@.skip(start as int),
            ds == (if s@.len() > 0 && (s@[0] == '-' || s@[0] == '+') { s@.drop_first() } else { s@ }),
            ds.len() > 0,
            neg == (s@.len() > 0 && s@[0] == '-'),
            all_digits(ds.take(i - start)),
            acc == digits_value(ds.take(i - start)),
            0 <= acc <= 2147483648,
        decreases n - i,
    {
        let c = s.get_char(i);
        if !(c >= '0' && c <= '9') {
            assert(ds[i - start] == c);
            assert(!all_digits(ds));
            return None;
        }
        let d = (c as u32 - '0' as u32) as i64;
        let ghost t = ds.take(i - start + 1);
        assert(t.drop_last() =~= ds.take(i - start));
        assert(t.last() == c);
        assert(all_digits(t)) by {
            assert forall|k: int| 0 <= k < t.len() implies is_digit(#[trigger] t[k]) by {
                if k < t.len() - 1 {
                    assert(t[k] == ds.take(i - start)[k]);
                }
            }
        }
        acc = acc * 10 + d;
        assert(acc == digits_value(t));
        if acc > 2147483648 {
            proof {
                if all_digits(ds) {
                    lemma_digits_grow(ds, (i - start + 1) as nat);
                }
            }
            return None;
        }
        i = i + 1;
    }
    assert(ds.take(n - start) =~= ds);
    if neg {
        Some((-acc) as i32)
    } else if acc <= 2147483647 {
        Some(acc as i32)
    } else {
        None
    }
}

/// The stream a redirection applies to.
#[derive(Clone, Copy, PartialEq, Eq, Structural, Debug)]
pub enum RedirectionStream {
    Stdin,
    Stdout,
    Stderr,
}

/// How a file redirection opens its file.
#[derive(Clone, Copy, PartialEq, Eq, Structural, Debug)]
pub enum FileRedirectionMode {
    Read,
    Write,
    Append,
}

/// A redirection the host carries out: a stream to or from a file, or a
/// stream duplicated from a file descriptor.
#[derive(Debug)]
pub enum ProcessRedirection {
    File { stream: RedirectionStream, mode: FileRedirectionMode, path: Vec<u8> },
    Dup { stream: RedirectionStream, fd: i32 },
}

pub enum RedirectionModel {
    File { stream: RedirectionStream, mode: FileRedirectionMode, path: Seq<u8> },
    Dup { stream: RedirectionStream, fd: i32 },
}

impl View for ProcessRedirection {
    type V = RedirectionModel;

    open spec fn view(&self) -> RedirectionModel {
        match self {
            ProcessRedirection::File { stream, mode, path } => RedirectionModel::File { stream: *stream, mode: *mode, path: path@ },
            ProcessRedirection::Dup { stream, fd } => RedirectionModel::Dup { stream: *stream, fd: *fd },
        }
    }
}

pub open spec fn redirection_views(s: Seq<ProcessRedirection>) -> Seq<RedirectionModel> {
    Seq::new(s.len(), |i: int| s[i]@)
}

/// A process to start: the target and its argv, the working directory, the
/// whole environment and the part the command set, the redirections, and
/// the time (in milliseconds) and CPU limits.
#[derive(Debug)]
pub struct ProcessInvocation {
    pub target: Vec<u8>,
    pub argv: Vec<Vec<u8>>,
    pub cwd: Vec<u8>,
    pub env: Vec<(Vec<u8>, Vec<u8>)>,
    pub env_overlay: Vec<(Vec<u8>, Vec<u8>)>,
    pub redirections: Vec<ProcessRedirection>,
    pub timeout: Option<u64>,
    pub cpu_max: Option<i64>,
}

pub struct InvocationModel {
    pub target: Seq<u8>,
    pub argv: Seq<Seq<u8>>,
    pub cwd: Seq<u8>,
    pub env: Seq<(Seq<u8>, Seq<u8>)>,
    pub env_overlay: Seq<(Seq<u8>, Seq<u8>)>,
    pub redirections: Seq<RedirectionModel>,
    pub timeout: Option<u64>,
    pub cpu_max: Option<i64>,
}

impl View for ProcessInvocation {
    type V = InvocationModel;

    open spec fn view(&self) -> InvocationModel {
        InvocationModel {
            target: self.target@,
            argv: crate::text::byte_views(self.argv@),
            cwd: self.cwd@,
            env: env_view(self.env@),
            env_overlay: env_view(self.env_overlay@),
            redirections: redirection_views(self.redirections@),
            timeout: self.timeout,
            cpu_max: self.cpu_max,
        }
    }
}

} // verus!

verus! {

/// The argv items a `run` argument gives from its value: one item, a list
/// spread when the mode allows or asks it, or always spread.
pub open spec fn arg_items(mode: u32, v: ValueModel, span: Span, cs: Span) -> Result<Seq<Seq<u8>>, ErrorModel> {
    if mode == 0 || (mode == 1 && !(v is List)) {
        match argv_item_of(v, span) {
            Ok(b) => Ok(seq![b]),
            Err(e) => Err(e),
        }
    } else if mode == 1 || mode == 2 {
        splice_of(v, span)
    } else {
        Err(crate::semantics::fault(cs))
    }
}

/// Evaluating a `run` argument: its argv items, or the value its expression
/// exits with.
pub open spec fn run_arg_sem(p: FullProgram, b: nat, arg: RunArg, m: Machine, cs: Span)
    -> Result<(Result<Seq<Seq<u8>>, ValueModel>, Machine), ErrorModel>
{
    match ev_expr(p, b, arg.value, m, cs) {
        Err(e) => Err(e),
        Ok((Flow::Exit(x), m1)) => Ok((Err(x), m1)),
        Ok((Flow::Next(v), m1)) => match arg_items(arg.mode, v, arg.span, cs) {
            Err(e) => Err(e),
            Ok(items) => Ok((Ok(items), m1)),
        },
    }
}

/// A run producing a value of type `T`, or an exit value, agrees with its
/// meaning `s` once `T` is viewed through `f`.
pub open spec fn argv_outcome(
    r: Result<Result<Vec<Vec<u8>>, Value>, RuntimeError>,
    s: Result<(Result<Seq<Seq<u8>>, ValueModel>, Machine), ErrorModel>,
    slots: Seq<Value>,
    yielded: Seq<Value>,
) -> bool {
    match s {
        Ok((Ok(items), m)) => r matches Ok(Ok(x)) && crate::text::byte_views(x@) == items && machine_of(slots, yielded) == m,
        Ok((Err(v), m)) => r matches Ok(Err(x)) && x@ == v && machine_of(slots, yielded) == m,
        Err(e) => r is Err && r->Err_0@ == e,
    }
}

/// The UTF-8 bytes of an interned name, when the program has it.
pub open spec fn name_bytes(p: FullProgram, name: Name) -> Option<Seq<u8>> {
    if (name.id as int) < p.execution.strings@.len() {
        Some(encode_utf8(p.execution.strings@[name.id as int]@))
    } else {
        None
    }
}

/// Evaluating the environment assignments `env[k..]` into the sorted
/// overlay `acc`: each value must be exactly one argv item.
pub open spec fn run_env_sem(p: FullProgram, b: nat, env: Seq<RunEnv>, k: nat, acc: Seq<(Seq<u8>, Seq<u8>)>, m: Machine, cs: Span)
    -> Result<(Result<Seq<(Seq<u8>, Seq<u8>)>, ValueModel>, Machine), ErrorModel>
    decreases env.len() - k,
{
    if k >= env.len() {
        Ok((Ok(acc), m))
    } else {
        match run_arg_sem(p, b, env[k as int].value, m, cs) {
            Err(e) => Err(e),
            Ok((Err(x), m1)) => Ok((Err(x), m1)),
            Ok((Ok(items), m1)) => if items.len() != 1 {
                Err(err_model("env-value"@, "environment values must be one value"@, Some(env[k as int].value.span)))
            } else {
                match name_bytes(p, env[k as int].name) {
                    None => Err(crate::semantics::fault(cs)),
                    Some(nb) => run_env_sem(p, b, env, k + 1, map_put(acc, nb, items[0]), m1, cs),
                }
            },
        }
    }
}

/// The stream a redirection kind applies to.
pub open spec fn redirection_stream(kind: RedirectionKind) -> RedirectionStream {
    match kind {
        RedirectionKind::StdinRead | RedirectionKind::StdinDup => RedirectionStream::Stdin,
        RedirectionKind::StderrWrite | RedirectionKind::StderrAppend => RedirectionStream::Stderr,
        _ => RedirectionStream::Stdout,
    }
}

/// How a file redirection kind opens its file.
pub open spec fn redirection_mode(kind: RedirectionKind) -> FileRedirectionMode {
    match kind {
        RedirectionKind::StdinRead => FileRedirectionMode::Read,
        RedirectionKind::StdoutAppend | RedirectionKind::StderrAppend => FileRedirectionMode::Append,
        _ => FileRedirectionMode::Write,
    }
}

/// The redirection a kind and its one target make: a duplicated descriptor
/// read from the target's text, or a file at the target's path on the host.
pub open spec fn redirection_of(kind: RedirectionKind, target: Seq<u8>, cwd: Seq<u8>, span: Span) -> Result<RedirectionModel, ErrorModel> {
    if kind == RedirectionKind::StdoutDup || kind == RedirectionKind::StdinDup {
        match parse_i32_of(spec_trim(utf8_lossy(target))) {
            Some(fd) => Ok(RedirectionModel::Dup { stream: redirection_stream(kind), fd }),
            None => Err(err_model("redirection-target"@, "fd redirection target must be a number"@, Some(span))),
        }
    } else if target.contains(0u8) {
        Err(err_model("path"@, "paths cannot contain NUL"@, Some(span)))
    } else {
        Ok(RedirectionModel::File { stream: redirection_stream(kind), mode: redirection_mode(kind), path: host_path_of(cwd, target) })
    }
}

/// Evaluating the redirections `rs[k..]` after `acc`.
pub open spec fn run_redirections_sem(p: FullProgram, b: nat, rs: Seq<RunRedirection>, k: nat, acc: Seq<RedirectionModel>, cwd: Seq<u8>, m: Machine)
    -> Result<(Result<Seq<RedirectionModel>, ValueModel>, Machine), ErrorModel>
    decreases rs.len() - k,
{
    if k >= rs.len() {
        Ok((Ok(acc), m))
    } else {
        let r = rs[k as int];
        match run_arg_sem(p, b, r.target, m, r.span) {
            Err(e) => Err(e),
            Ok((Err(x), m1)) => Ok((Err(x), m1)),
            Ok((Ok(items), m1)) => if items.len() != 1 {
                Err(err_model("redirection-target"@, "redirection target must produce one path"@, Some(r.span)))
            } else {
                match redirection_of(r.kind, items[0], cwd, r.span) {
                    Err(e) => Err(e),
                    Ok(x) => run_redirections_sem(p, b, rs, k + 1, acc.push(x), cwd, m1),
                }
            },
        }
    }
}

/// Evaluating the arguments `args[k..]`, their items appended to `acc`.
pub open spec fn run_args_sem(p: FullProgram, b: nat, args: Seq<RunArg>, k: nat, acc: Seq<Seq<u8>>, m: Machine, cs: Span)
    -> Result<(Result<Seq<Seq<u8>>, ValueModel>, Machine), ErrorModel>
    decreases args.len() - k,
{
    if k >= args.len() {
        Ok((Ok(acc), m))
    } else {
        match run_arg_sem(p, b, args[k as int], m, cs) {
            Err(e) => Err(e),
            Ok((Err(x), m1)) => Ok((Err(x), m1)),
            Ok((Ok(items), m1)) => run_args_sem(p, b, args, k + 1, acc + items, m1, cs),
        }
    }
}

impl Evaluator {
    /// Evaluates a `run` argument into argv items.
    pub fn eval_indexed_run_arg(
        &mut self,
        program: &FullProgram,
        budget: u32,
        arg: &RunArg,
        slots: &mut Vec<Value>,
        call_span: Span,
    ) -> (r: Result<Result<Vec<Vec<u8>>, Value>, RuntimeError>)
        requires
            cache_valid(old(self).indexed_function_cache@, *program),
        ensures
            kept(*old(self), *final(self), *program),
            argv_outcome(r, run_arg_sem(*program, budget as nat, *arg, machine_of(old(slots)@, old(self).stream_items@), call_span),
                final(slots)@, final(self).stream_items@),
    {
        let value = match self.eval_indexed_expr(program, budget, arg.value, slots, call_span)? {
            IndexedFlow::Continue(v) => v,
            IndexedFlow::Break(x) => return Ok(Err(x)),
        };
        let spread = arg.mode == 2 || (arg.mode == 1 && matches!(value, Value::List(_)));
        if arg.mode == 0 || (arg.mode == 1 && !spread) {
            let b = value_to_argv_bytes(&value, arg.span)?;
            let mut out: Vec<Vec<u8>> = Vec::new();
            out.push(b);
            assert(crate::text::byte_views(out@) =~= seq![b@]);
            Ok(Ok(out))
        } else if spread {
            Ok(Ok(splice_to_argv(&value, arg.span)?))
        } else {
            Err(fault_error(call_span))
        }
    }

    /// Evaluates the environment assignments of a `run` into a sorted
    /// overlay.
    pub fn eval_indexed_run_env(
        &mut self,
        program: &FullProgram,
        budget: u32,
        env: &Vec<RunEnv>,
        slots: &mut Vec<Value>,
        call_span: Span,
    ) -> (r: Result<Result<Vec<(Vec<u8>, Vec<u8>)>, Value>, RuntimeError>)
        requires
            cache_valid(old(self).indexed_function_cache@, *program),
        ensures
            kept(*old(self), *final(self), *program),
            match run_env_sem(*program, budget as nat, env@, 0, Seq::empty(), machine_of(old(slots)@, old(self).stream_items@), call_span) {
                Ok((Ok(o), m)) => r matches Ok(Ok(x)) && env_view(x@) == o && machine_of(final(slots)@, final(self).stream_items@) == m,
                Ok((Err(v), m)) => r matches Ok(Err(x)) && x@ == v && machine_of(final(slots)@, final(self).stream_items@) == m,
                Err(e) => r matches Err(x) && x@ == e,
            },
    {
        let ghost start = run_env_sem(*program, budget as nat, env@, 0, Seq::empty(), machine_of(slots@, self.stream_items@), call_span);
        let mut overlay: Vec<(Vec<u8>, Vec<u8>)> = Vec::new();
        assert(env_view(overlay@) =~= Seq::<(Seq<u8>, Seq<u8>)>::empty());
        let mut k: usize = 0;
        while k < env.len()
            invariant
                k <= env@.len(),
                kept(*old(self), *self, *program),
                start == run_env_sem(*program, budget as nat, env@, 0, Seq::empty(), machine_of(old(slots)@, old(self).stream_items@), call_span),
                start == run_env_sem(*program, budget as nat, env@, k as nat, env_view(overlay@), machine_of(slots@, self.stream_items@), call_span),
            decreases env@.len() - k,
        {
            let assignment = env[k];
            let mut items = match self.eval_indexed_run_arg(program, budget, &assignment.value, slots, call_span)? {
                Ok(items) => items,
                Err(x) => return Ok(Err(x)),
            };
            if items.len() != 1 {
                return Err(RuntimeError::new("env-value", "environment values must be one value").with_span(assignment.value.span));
            }
            let value = items.pop().unwrap();
            if (assignment.name.id as usize) >= program.execution.strings.len() {
                return Err(fault_error(call_span));
            }
            let name = program.execution.strings[assignment.name.id as usize].as_str().as_bytes_vec();
            env_put(&mut overlay, name, value);
            k = k + 1;
        }
        Ok(Ok(overlay))
    }

    /// Evaluates the redirections of a `run`; relative file targets are
    /// taken from the evaluator's working directory.
    pub fn eval_indexed_run_redirections(
        &mut self,
        program: &FullProgram,
        budget: u32,
        redirections: &Vec<RunRedirection>,
        slots: &mut Vec<Value>,
    ) -> (r: Result<Result<Vec<ProcessRedirection>, Value>, RuntimeError>)
        requires
            cache_valid(old(self).indexed_function_cache@, *program),
        ensures
            kept(*old(self), *final(self), *program),
            match run_redirections_sem(*program, budget as nat, redirections@, 0, Seq::empty(), old(self).cwd@,
                machine_of(old(slots)@, old(self).stream_items@)) {
                Ok((Ok(o), m)) => r matches Ok(Ok(x)) && redirection_views(x@) == o && machine_of(final(slots)@, final(self).stream_items@) == m,
                Ok((Err(v), m)) => r matches Ok(Err(x)) && x@ == v && machine_of(final(slots)@, final(self).stream_items@) == m,
                Err(e) => r matches Err(x) && x@ == e,
            },
    {
        let cwd = self.cwd.clone();
        assert(cwd@ =~= self.cwd@);
        self.run_redirections_in(program, budget, &cwd, redirections, slots)
    }

    /// Evaluates the redirections of a `run` against the directory `cwd`.
    fn run_redirections_in(
        &mut self,
        program: &FullProgram,
        budget: u32,
        cwd: &Vec<u8>,
        redirections: &Vec<RunRedirection>,
        slots: &mut Vec<Value>,
    ) -> (r: Result<Result<Vec<ProcessRedirection>, Value>, RuntimeError>)
        requires
            cache_valid(old(self).indexed_function_cache@, *program),
        ensures
            kept(*old(self), *final(self), *program),
            match run_redirections_sem(*program, budget as nat, redirections@, 0, Seq::empty(), cwd@,
                machine_of(old(slots)@, old(self).stream_items@)) {
                Ok((Ok(o), m)) => r matches Ok(Ok(x)) && redirection_views(x@) == o && machine_of(final(slots)@, final(self).stream_items@) == m,
                Ok((Err(v), m)) => r matches Ok(Err(x)) && x@ == v && machine_of(final(slots)@, final(self).stream_items@) == m,
                Err(e) => r matches Err(x) && x@ == e,
            },
    {
        let ghost start = run_redirections_sem(*program, budget as nat, redirections@, 0, Seq::empty(), cwd@,
            machine_of(slots@, self.stream_items@));
        let mut out: Vec<ProcessRedirection> = Vec::new();
        assert(redirection_views(out@) =~= Seq::<RedirectionModel>::empty());
        let mut k: usize = 0;
        while k < redirections.len()
            invariant
                k <= redirections@.len(),
                kept(*old(self), *self, *program),
                start == run_redirections_sem(*program, budget as nat, redirections@, 0, Seq::empty(), cwd@,
                    machine_of(old(slots)@, old(self).stream_items@)),
                start == run_redirections_sem(*program, budget as nat, redirections@, k as nat, redirection_views(out@), cwd@,
                    machine_of(slots@, self.stream_items@)),
            decreases redirections@.len() - k,
        {
            let redirection = redirections[k];
            let mut items = match self.eval_indexed_run_arg(program, budget, &redirection.target, slots, redirection.span)? {
                Ok(items) => items,
                Err(x) => return Ok(Err(x)),
            };
            if items.len() != 1 {
                return Err(RuntimeError::new("redirection-target", "redirection target must produce one path")
                    .with_span(redirection.span));
            }
            let target = items.pop().unwrap();
            let made = redirection_from_target(cwd, redirection.kind, target, redirection.span)?;
            let ghost before = redirection_views(out@);
            out.push(made);
            assert(redirection_views(out@) =~= before.push(made@));
            k = k + 1;
        }
        Ok(Ok(out))
    }
}

    /// The redirection a kind and its one target make.
    fn redirection_from_target(cwd: &Vec<u8>, kind: RedirectionKind, target: Vec<u8>, span: Span) -> (r: Result<ProcessRedirection, RuntimeError>)
        ensures
            match redirection_of(kind, target@, cwd@, span) {
                Ok(x) => r matches Ok(y) && y@ == x,
                Err(e) => r matches Err(y) && y@ == e,
            },
    {
        if kind == RedirectionKind::StdoutDup || kind == RedirectionKind::StdinDup {
            let text = string_from_utf8_lossy(target.as_slice());
            let stream = if kind == RedirectionKind::StdinDup { RedirectionStream::Stdin } else { RedirectionStream::Stdout };
            return match parse_i32(str_trim(text.as_str())) {
                Some(fd) => Ok(ProcessRedirection::Dup { stream, fd }),
                None => Err(RuntimeError::new("redirection-target", "fd redirection target must be a number").with_span(span)),
            };
        }
        if contains_nul(&target) {
            return Err(RuntimeError::new("path", "paths cannot contain NUL").with_span(span));
        }
        let stream = match kind {
            RedirectionKind::StdinRead => RedirectionStream::Stdin,
            RedirectionKind::StderrWrite | RedirectionKind::StderrAppend => RedirectionStream::Stderr,
            _ => RedirectionStream::Stdout,
        };
        let mode = match kind {
            RedirectionKind::StdinRead => FileRedirectionMode::Read,
            RedirectionKind::StdoutAppend | RedirectionKind::StderrAppend => FileRedirectionMode::Append,
            _ => FileRedirectionMode::Write,
        };
        let path = host_path_from(cwd, &PathValue { bytes: target });
        Ok(ProcessRedirection::File { stream, mode, path })
    }

} // verus!

verus! {

/// Evaluating an optional expression.
pub open spec fn optional_sem(p: FullProgram, b: nat, i: Option<u32>, m: Machine, cs: Span) -> Result<(Option<Flow>, Machine), ErrorModel> {
    match i {
        None => Ok((None, m)),
        Some(i) => match ev_expr(p, b, i, m, cs) {
            Err(e) => Err(e),
            Ok((f, m1)) => Ok((Some(f), m1)),
        },
    }
}

/// The time limit a `run` timeout value gives, in milliseconds.
pub open spec fn timeout_of(f: Option<Flow>, span: Span) -> Result<Option<u64>, ErrorModel> {
    match f {
        Some(Flow::Next(ValueModel::Duration(ms))) => Ok(Some(ms)),
        Some(Flow::Next(v)) => Err(crate::semantics::type_error("run timeout expected Duration, found "@ + spec_type_name(v), span)),
        _ => Ok(None),
    }
}

/// The CPU limit a `run` cpumax value gives.
pub open spec fn cpu_max_of(f: Option<Flow>, span: Span) -> Result<Option<i64>, ErrorModel> {
    match f {
        Some(Flow::Next(ValueModel::Int(n))) => Ok(Some(n)),
        Some(Flow::Next(v)) => Err(crate::semantics::type_error("run cpumax expected Int, found "@ + spec_type_name(v), span)),
        _ => Ok(None),
    }
}

/// The process a `run` segment asks for, from the evaluator's environment
/// `env0` and working directory `cwd`: its target (exactly one argv item),
/// its arguments, environment overlay and redirections evaluated in that
/// order, then its timeout and CPU limit; or the value an expression exits
/// with.
pub open spec fn invocation_sem(
    p: FullProgram, b: nat, target: RunArg, args: Seq<RunArg>, env: Seq<RunEnv>, rs: Seq<RunRedirection>,
    timeout: Option<u32>, cpu_max: Option<u32>, env0: Seq<(Seq<u8>, Seq<u8>)>, cwd: Seq<u8>, m: Machine, span: Span,
) -> Result<(Result<InvocationModel, ValueModel>, Machine), ErrorModel> {
    match run_arg_sem(p, b, target, m, span) {
        Err(e) => Err(e),
        Ok((Err(x), m1)) => Ok((Err(x), m1)),
        Ok((Ok(t), m1)) => if t.len() != 1 {
            Err(err_model("argv-conversion"@, "run target must produce one argv item"@, Some(target.span)))
        } else {
            match run_args_sem(p, b, args, 0, Seq::empty(), m1, span) {
                Err(e) => Err(e),
                Ok((Err(x), m2)) => Ok((Err(x), m2)),
                Ok((Ok(argv), m2)) => match run_env_sem(p, b, env, 0, Seq::empty(), m2, span) {
                    Err(e) => Err(e),
                    Ok((Err(x), m3)) => Ok((Err(x), m3)),
                    Ok((Ok(overlay), m3)) => match run_redirections_sem(p, b, rs, 0, Seq::empty(), cwd, m3) {
                        Err(e) => Err(e),
                        Ok((Err(x), m4)) => Ok((Err(x), m4)),
                        Ok((Ok(reds), m4)) => match optional_sem(p, b, timeout, m4, span) {
                            Err(e) => Err(e),
                            Ok((Some(Flow::Exit(x)), m5)) => Ok((Err(x), m5)),
                            Ok((tf, m5)) => match timeout_of(tf, span) {
                                Err(e) => Err(e),
                                Ok(to) => match optional_sem(p, b, cpu_max, m5, span) {
                                    Err(e) => Err(e),
                                    Ok((Some(Flow::Exit(x)), m6)) => Ok((Err(x), m6)),
                                    Ok((cf, m6)) => match cpu_max_of(cf, span) {
                                        Err(e) => Err(e),
                                        Ok(cpu) => Ok((Ok(InvocationModel {
                                            target: t[0],
                                            argv,
                                            cwd,
                                            env: map_put_all(env0, overlay),
                                            env_overlay: overlay,
                                            redirections: reds,
                                            timeout: to,
                                            cpu_max: cpu,
                                        }), m6)),
                                    },
                                },
                            },
                        },
                    },
                },
            }
        },
    }
}

/// A copy of an environment table.
pub fn clone_env(e: &Vec<(Vec<u8>, Vec<u8>)>) -> (r: Vec<(Vec<u8>, Vec<u8>)>)
    ensures
        env_view(r@) == env_view(e@),
{
    let mut out: Vec<(Vec<u8>, Vec<u8>)> = Vec::new();
    let mut i: usize = 0;
    while i < e.len()
        invariant
            i <= e@.len(),
            env_view(out@) == env_view(e@).take(i as int),
        decreases e@.len() - i,
    {
        let k = e[i].0.clone();
        let v = e[i].1.clone();
        assert(k@ =~= e@[i as int].0@ && v@ =~= e@[i as int].1@);
        let ghost before = env_view(out@);
        out.push((k, v));
        assert(env_view(out@) =~= before.push((k@, v@)));
        i = i + 1;
        assert(env_view(out@) =~= env_view(e@).take(i as int));
    }
    assert(env_view(e@).take(i as int) =~= env_view(e@));
    out
}

/// Puts every entry of `overlay` into `table`, in order.
pub fn apply_overlay(table: &mut Vec<(Vec<u8>, Vec<u8>)>, overlay: &Vec<(Vec<u8>, Vec<u8>)>)
    ensures
        env_view(final(table)@) == map_put_all(env_view(old(table)@), env_view(overlay@)),
{
    let ghost o = env_view(overlay@);
    let mut i: usize = 0;
    assert(o.skip(0) =~= o);
    while i < overlay.len()
        invariant
            i <= overlay@.len(),
            o == env_view(overlay@),
            map_put_all(env_view(old(table)@), o) == map_put_all(env_view(table@), o.skip(i as int)),
        decreases overlay@.len() - i,
    {
        let k = overlay[i].0.clone();
        let v = overlay[i].1.clone();
        assert(k@ =~= o[i as int].0 && v@ =~= o[i as int].1);
        assert(o.skip(i as int).drop_first() =~= o.skip(i + 1));
        env_put(table, k, v);
        i = i + 1;
    }
    assert(o.skip(i as int) =~= Seq::<(Seq<u8>, Seq<u8>)>::empty());
}

impl Evaluator {
    /// Evaluates the arguments of a `run`, each into its argv items.
    fn eval_indexed_run_args(
        &mut self,
        program: &FullProgram,
        budget: u32,
        args: &Vec<RunArg>,
        slots: &mut Vec<Value>,
        call_span: Span,
    ) -> (r: Result<Result<Vec<Vec<u8>>, Value>, RuntimeError>)
        requires
            cache_valid(old(self).indexed_function_cache@, *program),
        ensures
            kept(*old(self), *final(self), *program),
            argv_outcome(r, run_args_sem(*program, budget as nat, args@, 0, Seq::empty(),
                machine_of(old(slots)@, old(self).stream_items@), call_span), final(slots)@, final(self).stream_items@),
    {
        let ghost start = run_args_sem(*program, budget as nat, args@, 0, Seq::empty(),
            machine_of(slots@, self.stream_items@), call_span);
        let mut argv: Vec<Vec<u8>> = Vec::new();
        assert(crate::text::byte_views(argv@) =~= Seq::<Seq<u8>>::empty());
        let mut k: usize = 0;
        while k < args.len()
            invariant
                k <= args@.len(),
                kept(*old(self), *self, *program),
                start == run_args_sem(*program, budget as nat, args@, 0, Seq::empty(),
                    machine_of(old(slots)@, old(self).stream_items@), call_span),
                start == run_args_sem(*program, budget as nat, args@, k as nat, crate::text::byte_views(argv@),
                    machine_of(slots@, self.stream_items@), call_span),
            decreases args@.len() - k,
        {
            let mut items = match self.eval_indexed_run_arg(program, budget, &args[k], slots, call_span)? {
                Ok(items) => items,
                Err(x) => return Ok(Err(x)),
            };
            let ghost before = crate::text::byte_views(argv@);
            let ghost added = crate::text::byte_views(items@);
            argv.append(&mut items);
            assert(crate::text::byte_views(argv@) =~= before + added);
            k = k + 1;
        }
        Ok(Ok(argv))
    }

    /// The process a `run` segment asks for.
    pub fn indexed_process_invocation(
        &mut self,
        program: &FullProgram,
        budget: u32,
        target: &RunArg,
        args: &Vec<RunArg>,
        env: &Vec<RunEnv>,
        redirections: &Vec<RunRedirection>,
        timeout: Option<u32>,
        cpu_max: Option<u32>,
        slots: &mut Vec<Value>,
        span: Span,
    ) -> (r: Result<Result<ProcessInvocation, Value>, RuntimeError>)
        requires
            cache_valid(old(self).indexed_function_cache@, *program),
        ensures
            kept(*old(self), *final(self), *program),
            match invocation_sem(*program, budget as nat, *target, args@, env@, redirections@, timeout, cpu_max,
                env_view(old(self).env@), old(self).cwd@, machine_of(old(slots)@, old(self).stream_items@), span) {
                Ok((Ok(inv), m)) => r matches Ok(Ok(x)) && x@ == inv && machine_of(final(slots)@, final(self).stream_items@) == m,
                Ok((Err(v), m)) => r matches Ok(Err(x)) && x@ == v && machine_of(final(slots)@, final(self).stream_items@) == m,
                Err(e) => r matches Err(x) && x@ == e,
            },
    {
        let env0 = clone_env(&self.env);
        let cwd = self.cwd.clone();
        assert(cwd@ =~= self.cwd@);
        let mut target_items = match self.eval_indexed_run_arg(program, budget, target, slots, span)? {
            Ok(items) => items,
            Err(x) => return Ok(Err(x)),
        };
        if target_items.len() != 1 {
            return Err(RuntimeError::new("argv-conversion", "run target must produce one argv item").with_span(target.span));
        }
        let target_value = target_items.pop().unwrap();
        let argv = match self.eval_indexed_run_args(program, budget, args, slots, span)? {
            Ok(argv) => argv,
            Err(x) => return Ok(Err(x)),
        };
        let env_overlay = match self.eval_indexed_run_env(program, budget, env, slots, span)? {
            Ok(o) => o,
            Err(x) => return Ok(Err(x)),
        };
        let redirections = match self.run_redirections_in(program, budget, &cwd, redirections, slots)? {
            Ok(rs) => rs,
            Err(x) => return Ok(Err(x)),
        };
        let timeout = match self.eval_indexed_optional_expr(program, budget, timeout, slots, span)? {
            Some(IndexedFlow::Break(x)) => return Ok(Err(x)),
            Some(IndexedFlow::Continue(Value::Duration(ms))) => Some(ms),
            Some(IndexedFlow::Continue(other)) => {
                proof { reveal_strlit("run timeout expected Duration, found "); }
                let mut message = String::from_str("run timeout expected Duration, found ");
                message.append(other.type_label());
                return Err(crate::interp::type_error_at(message, span));
            },
            None => None,
        };
        let cpu_max = match self.eval_indexed_optional_expr(program, budget, cpu_max, slots, span)? {
            Some(IndexedFlow::Break(x)) => return Ok(Err(x)),
            Some(IndexedFlow::Continue(Value::Int(n))) => Some(n),
            Some(IndexedFlow::Continue(other)) => {
                proof { reveal_strlit("run cpumax expected Int, found "); }
                let mut message = String::from_str("run cpumax expected Int, found ");
                message.append(other.type_label());
                return Err(crate::interp::type_error_at(message, span));
            },
            None => None,
        };
        let mut full_env = env0;
        apply_overlay(&mut full_env, &env_overlay);
        Ok(Ok(ProcessInvocation {
            target: target_value,
            argv,
            cwd,
            env: full_env,
            env_overlay,
            redirections,
            timeout,
            cpu_max,
        }))
    }
}

} // verus!

verus! {

/// A redirection a command plan asks for: a stream to or from a file.
#[derive(Debug)]
pub enum CommandRedirection {
    File { stream: RedirectionStream, mode: FileRedirectionMode, path: PathValue },
}

/// A command as the program built it: target, argv, environment
/// assignments, working directory, redirections, and the time limit in
/// milliseconds and CPU limit.
#[derive(Debug)]
pub struct CommandPlan {
    pub target: Vec<u8>,
    pub argv: Vec<Vec<u8>>,
    pub env: Vec<(String, String)>,
    pub cwd: Option<PathValue>,
    pub redirections: Vec<CommandRedirection>,
    pub timeout: Option<u64>,
    pub cpu_max: Option<i64>,
}

/// A plan's environment assignments as text.
pub open spec fn plan_env_view(s: Seq<(String, String)>) -> Seq<(Seq<char>, Seq<char>)> {
    Seq::new(s.len(), |i: int| (s[i].0@, s[i].1@))
}

/// The overlay the assignments `env[k..]` make on top of `acc`: a name may
/// not be empty nor hold NUL or `=`, a value may not hold NUL.
pub open spec fn plan_overlay(env: Seq<(Seq<char>, Seq<char>)>, k: nat, acc: Seq<(Seq<u8>, Seq<u8>)>, span: Span)
    -> Result<Seq<(Seq<u8>, Seq<u8>)>, ErrorModel>
    decreases env.len() - k,
{
    if k >= env.len() {
        Ok(acc)
    } else {
        let (name, value) = env[k as int];
        if name.len() == 0 || name.contains('\0') || name.contains('=') {
            Err(err_model("env-name"@, "environment names cannot be empty or contain NUL or `=`"@, Some(span)))
        } else if value.contains('\0') {
            Err(err_model("env-value"@, "environment values cannot contain NUL"@, Some(span)))
        } else {
            plan_overlay(env, k + 1, map_put(acc, encode_utf8(name), encode_utf8(value)), span)
        }
    }
}

/// A plan's redirections, their paths on the host.
pub open spec fn plan_redirections(rs: Seq<CommandRedirection>, cwd: Seq<u8>) -> Seq<RedirectionModel> {
    Seq::new(rs.len(), |i: int| match rs[i] {
        CommandRedirection::File { stream, mode, path } => RedirectionModel::File { stream, mode, path: host_path_of(cwd, path.bytes@) },
    })
}

/// Whether a text holds the character `c`.
fn text_has(s: &str, c: char) -> (r: bool)
    ensures
        r == s@.contains(c),
{
    let n = s.unicode_len();
    let mut i: usize = 0;
    while i < n
        invariant
            n == s@.len(),
            i <= n,
            forall|k: int| 0 <= k < i ==> s@[k] != c,
        decreases n - i,
    {
        if s.get_char(i) == c {
            assert(s@[i as int] == c);
            return true;
        }
        i = i + 1;
    }
    false
}

impl Evaluator {
    /// The process a command plan asks for: the evaluator's environment with
    /// the plan's assignments put over it, the plan's working directory or
    /// else the evaluator's, its redirections with their paths on the host.
    pub fn invocation_from_command_plan(&mut self, plan: &CommandPlan, span: Span) -> (r: Result<ProcessInvocation, RuntimeError>)
        ensures
            *final(self) == *old(self),
            match plan_overlay(plan_env_view(plan.env@), 0, Seq::empty(), span) {
                Err(e) => r matches Err(x) && x@ == e,
                Ok(overlay) => r matches Ok(inv) && inv@ == (InvocationModel {
                    target: plan.target@,
                    argv: crate::text::byte_views(plan.argv@),
                    cwd: match plan.cwd {
                        Some(c) => host_path_of(old(self).cwd@, c.bytes@),
                        None => old(self).cwd@,
                    },
                    env: map_put_all(env_view(old(self).env@), overlay),
                    env_overlay: overlay,
                    redirections: plan_redirections(plan.redirections@, old(self).cwd@),
                    timeout: plan.timeout,
                    cpu_max: plan.cpu_max,
                }),
            },
    {
        let ghost ev = plan_env_view(plan.env@);
        let mut overlay: Vec<(Vec<u8>, Vec<u8>)> = Vec::new();
        assert(env_view(overlay@) =~= Seq::<(Seq<u8>, Seq<u8>)>::empty());
        let mut k: usize = 0;
        while k < plan.env.len()
            invariant
                k <= plan.env@.len(),
                ev == plan_env_view(plan.env@),
                plan_overlay(ev, 0, Seq::empty(), span) == plan_overlay(ev, k as nat, env_view(overlay@), span),
            decreases plan.env@.len() - k,
        {
            let name = plan.env[k].0.as_str();
            let value = plan.env[k].1.as_str();
            if name.unicode_len() == 0 || text_has(name, '\0') || text_has(name, '=') {
                return Err(RuntimeError::new("env-name", "environment names cannot be empty or contain NUL or `=`").with_span(span));
            }
            if text_has(value, '\0') {
                return Err(RuntimeError::new("env-value", "environment values cannot contain NUL").with_span(span));
            }
            env_put(&mut overlay, name.as_bytes_vec(), value.as_bytes_vec());
            k = k + 1;
        }
        let mut env = clone_env(&self.env);
        apply_overlay(&mut env, &overlay);
        let cwd = match &plan.cwd {
            Some(c) => self.host_path(c),
            None => {
                let c = self.cwd.clone();
                assert(c@ =~= self.cwd@);
                c
            },
        };
        let mut redirections: Vec<ProcessRedirection> = Vec::new();
        let mut i: usize = 0;
        while i < plan.redirections.len()
            invariant
                i <= plan.redirections@.len(),
                redirection_views(redirections@) == plan_redirections(plan.redirections@, self.cwd@).take(i as int),
            decreases plan.redirections@.len() - i,
        {
            let made = match &plan.redirections[i] {
                CommandRedirection::File { stream, mode, path } => ProcessRedirection::File {
                    stream: *stream,
                    mode: *mode,
                    path: self.host_path(path),
                },
            };
            let ghost before = redirection_views(redirections@);
            redirections.push(made);
            assert(redirection_views(redirections@) =~= before.push(made@));
            i = i + 1;
            assert(redirection_views(redirections@) =~= plan_redirections(plan.redirections@, self.cwd@).take(i as int));
        }
        assert(plan_redirections(plan.redirections@, self.cwd@).take(i as int) =~= plan_redirections(plan.redirections@, self.cwd@));
        let mut argv: Vec<Vec<u8>> = Vec::new();
        let mut j: usize = 0;
        while j < plan.argv.len()
            invariant
                j <= plan.argv@.len(),
                crate::text::byte_views(argv@) == crate::text::byte_views(plan.argv@).take(j as int),
            decreases plan.argv@.len() - j,
        {
            let a = plan.argv[j].clone();
            assert(a@ =~= plan.argv@[j as int]@);
            let ghost before = crate::text::byte_views(argv@);
            argv.push(a);
            assert(crate::text::byte_views(argv@) =~= before.push(a@));
            j = j + 1;
            assert(crate::text::byte_views(argv@) =~= crate::text::byte_views(plan.argv@).take(j as int));
        }
        assert(crate::text::byte_views(plan.argv@).take(j as int) =~= crate::text::byte_views(plan.argv@));
        let target = plan.target.clone();
        assert(target@ =~= plan.target@);
        Ok(ProcessInvocation {
            target,
            argv,
            cwd,
            env,
            env_overlay: overlay,
            redirections,
            timeout: plan.timeout,
            cpu_max: plan.cpu_max,
        })
    }
}

} // verus!
