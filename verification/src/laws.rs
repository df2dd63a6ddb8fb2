//! Laws that say what the library's operations are for: how a `run`
//! redirection opens its file, what a type contract asks of a value, and
//! which fields an error, a status or a record answers.
use vstd::prelude::*;
use vstd::string::*;
use crate::value::{ValueModel, Span};
use crate::semantics::field_value;
use crate::runs::RedirectionKind;
use crate::process::{RedirectionModel, RedirectionStream, FileRedirectionMode, redirection_of, parse_i32_of};
use crate::text::utf8_lossy;
use crate::records::host_path_of;
use crate::contract::{ModuleExportSignature, type_matches, entries_match_from};
use crate::text::{spec_trim, is_white_space, lemma_leading_ws, lemma_trailing_ws};

verus! {

/// A redirection to or from a file opens it at the target's path on the
/// host: `<` reads standard input from it, `>` and `2>` truncate it and
/// write standard output or standard error to it, and `>>` and `2>>` append
/// to it; only the two append kinds append, and only `<` reads.
pub proof fn lemma_file_redirection_opens_as_its_kind(
    kind: RedirectionKind, target: Seq<u8>, cwd: Seq<u8>, span: Span,
)
    requires
        kind != RedirectionKind::StdoutDup,
        kind != RedirectionKind::StdinDup,
        !target.contains(0u8),
    ensures
        redirection_of(kind, target, cwd, span) matches Ok(RedirectionModel::File { stream, mode, path }) && {
            &&& path == host_path_of(cwd, target)
            &&& (mode == FileRedirectionMode::Append
                <==> (kind == RedirectionKind::StdoutAppend || kind == RedirectionKind::StderrAppend))
            &&& (mode == FileRedirectionMode::Read <==> kind == RedirectionKind::StdinRead)
            &&& (mode == FileRedirectionMode::Write
                <==> (kind == RedirectionKind::StdoutWrite || kind == RedirectionKind::StderrWrite))
            &&& (stream == RedirectionStream::Stdin <==> kind == RedirectionKind::StdinRead)
            &&& (stream == RedirectionStream::Stderr
                <==> (kind == RedirectionKind::StderrWrite || kind == RedirectionKind::StderrAppend))
            &&& (stream == RedirectionStream::Stdout
                <==> (kind == RedirectionKind::StdoutWrite || kind == RedirectionKind::StdoutAppend))
        },
{
}

/// Appending and truncating redirections of the same stream differ only in
/// how they open the file: the same stream and path, `Append` against
/// `Write`.
pub proof fn lemma_append_differs_from_write_only_in_mode(target: Seq<u8>, cwd: Seq<u8>, span: Span)
    requires
        !target.contains(0u8),
    ensures
        redirection_of(RedirectionKind::StdoutAppend, target, cwd, span) == Ok::<RedirectionModel, crate::value::ErrorModel>(
            RedirectionModel::File { stream: RedirectionStream::Stdout, mode: FileRedirectionMode::Append, path: host_path_of(cwd, target) }),
        redirection_of(RedirectionKind::StdoutWrite, target, cwd, span) == Ok::<RedirectionModel, crate::value::ErrorModel>(
            RedirectionModel::File { stream: RedirectionStream::Stdout, mode: FileRedirectionMode::Write, path: host_path_of(cwd, target) }),
        redirection_of(RedirectionKind::StderrAppend, target, cwd, span) == Ok::<RedirectionModel, crate::value::ErrorModel>(
            RedirectionModel::File { stream: RedirectionStream::Stderr, mode: FileRedirectionMode::Append, path: host_path_of(cwd, target) }),
        redirection_of(RedirectionKind::StderrWrite, target, cwd, span) == Ok::<RedirectionModel, crate::value::ErrorModel>(
            RedirectionModel::File { stream: RedirectionStream::Stderr, mode: FileRedirectionMode::Write, path: host_path_of(cwd, target) }),
{
}

/// A descriptor redirection (`>&` and `<&`) duplicates the descriptor its
/// target spells, on standard output or standard input, and is refused when
/// the target spells no number; a file redirection whose target holds a NUL
/// byte is refused.
pub proof fn lemma_dup_and_refused_redirections(kind: RedirectionKind, target: Seq<u8>, cwd: Seq<u8>, span: Span)
    ensures
        kind == RedirectionKind::StdoutDup || kind == RedirectionKind::StdinDup ==> match parse_i32_of(
            spec_trim(utf8_lossy(target)),
        ) {
            Some(fd) => redirection_of(kind, target, cwd, span) == Ok::<RedirectionModel, crate::value::ErrorModel>(
                RedirectionModel::Dup {
                    stream: if kind == RedirectionKind::StdoutDup { RedirectionStream::Stdout } else { RedirectionStream::Stdin },
                    fd,
                }),
            None => redirection_of(kind, target, cwd, span) is Err,
        },
        kind != RedirectionKind::StdoutDup && kind != RedirectionKind::StdinDup && target.contains(0u8)
            ==> redirection_of(kind, target, cwd, span) is Err,
{
}

/// A relative redirection target is taken from the working directory, an
/// absolute one (starting with `/`) is used as it is; either way the path
/// ends with the target's bytes.
pub proof fn lemma_redirection_path_joins_cwd(cwd: Seq<u8>, target: Seq<u8>)
    ensures
        target.len() > 0 && target[0] == 47u8 ==> host_path_of(cwd, target) == target,
        !(target.len() > 0 && target[0] == 47u8) ==> host_path_of(cwd, target).len() == cwd.len() + 1 + target.len()
            && host_path_of(cwd, target).subrange(0, cwd.len() as int) == cwd
            && host_path_of(cwd, target)[cwd.len() as int] == 47u8
            && host_path_of(cwd, target).subrange(cwd.len() + 1int, host_path_of(cwd, target).len() as int) == target,
{
    let h = host_path_of(cwd, target);
    if !(target.len() > 0 && target[0] == 47u8) {
        assert(h.subrange(0, cwd.len() as int) =~= cwd);
        assert(h.subrange(cwd.len() + 1int, h.len() as int) =~= target);
    }
}

/// A text with no white space at either end is its own trim.
proof fn lemma_trim_keeps(s: Seq<char>)
    requires
        s.len() > 0,
        !is_white_space(s[0]),
        !is_white_space(s.last()),
    ensures
        spec_trim(s) == s,
{
    lemma_leading_ws(s, 0);
    lemma_trailing_ws(s, 0);
    assert(s.subrange(0, s.len() as int) =~= s);
}

/// Every entry value from `i` on satisfies `t` exactly when the entry check
/// from `i` holds.
proof fn lemma_entries_match_all(sigs: Map<u32, ModuleExportSignature>, e: Seq<(Seq<char>, ValueModel)>, t: Seq<char>, i: int)
    requires
        0 <= i <= e.len(),
    ensures
        entries_match_from(sigs, e, t, i) == (forall|j: int| i <= j < e.len() ==> type_matches(sigs, #[trigger] e[j].1, t)),
    decreases e.len() - i,
{
    if i < e.len() {
        lemma_entries_match_all(sigs, e, t, i + 1);
    }
}

/// A map satisfies `Map[T]` exactly when every one of its values satisfies
/// `T`, and nothing but a map satisfies it.
pub proof fn lemma_map_contract_checks_every_value(
    sigs: Map<u32, ModuleExportSignature>, entries: Seq<(Seq<char>, ValueModel)>, t: Seq<char>, other: ValueModel,
)
    requires
        !(other is Dict),
    ensures
        type_matches(sigs, ValueModel::Dict(entries), "Map["@ + t + "]"@)
            == (forall|j: int| 0 <= j < entries.len() ==> type_matches(sigs, #[trigger] entries[j].1, spec_trim(t))),
        !type_matches(sigs, other, "Map["@ + t + "]"@),
{
    reveal_strlit("Map[");
    reveal_strlit("]");
    reveal_strlit("Map");
    reveal_strlit("List");
    reveal_strlit("Stream");
    reveal_strlit("Result");
    reveal_strlit("Proc(");
    reveal_strlit("Any");
    reveal_strlit("Unknown");
    reveal_strlit("Null");
    reveal_strlit("Bool");
    reveal_strlit("Int");
    reveal_strlit("UInt");
    reveal_strlit("Float");
    reveal_strlit("Duration");
    reveal_strlit("Str");
    reveal_strlit("Bytes");
    reveal_strlit("Digest");
    reveal_strlit("Regex");
    reveal_strlit("Path");
    reveal_strlit("Module");
    reveal_strlit("Record");
    reveal_strlit("Status");
    reveal_strlit("EnvPathList");
    reveal_strlit("Error");
    reveal_strlit("ProcessError");
    reveal_strlit("Pure");
    reveal_strlit("Proc");
    reveal_strlit("Command");
    reveal_strlit("ProcessHandle");
    reveal_strlit("NetJob");
    reveal_strlit("Unit");
    let e = "Map["@ + t + "]"@;
    assert(e.len() == t.len() + 5);
    assert(e[0] == 'M' && e[1] == 'a' && e[2] == 'p' && e[3] == '[');
    assert(e.last() == ']');
    assert(!is_white_space('M')) by {
        assert(('M' as u32) == 77);
    }
    assert(!is_white_space(']')) by {
        assert((']' as u32) == 93);
    }
    lemma_trim_keeps(e);
    assert(e.subrange(0, 3) =~= "Map"@);
    assert(e.subrange(4, e.len() - 1) =~= t);
    assert(crate::contract_text::generic_body(e, "Map"@) == Some(spec_trim(t)));
    assert(crate::contract_text::generic_body(e, "List"@) is None) by {
        if e.subrange(0, 4) == "List"@ {
            assert(e.subrange(0, 4)[0] == 'L');
        }
    }
    assert(crate::types::proc_signature_of(e) is None) by {
        if e.len() >= 5 && e.subrange(0, 5) == "Proc("@ {
            assert(e.subrange(0, 5)[0] == 'P');
        }
    }
    assert(crate::types::builtin_of(e) is None);
    lemma_entries_match_all(sigs, entries, spec_trim(t), 0);
}

/// Every item from `i` on satisfies `t` exactly when the item check from `i`
/// holds.
proof fn lemma_items_match_all(sigs: Map<u32, ModuleExportSignature>, items: Seq<ValueModel>, t: Seq<char>, i: int)
    requires
        0 <= i <= items.len(),
    ensures
        crate::contract::items_match_from(sigs, items, t, i)
            == (forall|j: int| i <= j < items.len() ==> type_matches(sigs, #[trigger] items[j], t)),
    decreases items.len() - i,
{
    if i < items.len() {
        lemma_items_match_all(sigs, items, t, i + 1);
    }
}

/// A list satisfies `List[T]` exactly when every one of its items satisfies
/// `T`, and nothing but a list satisfies it.
pub proof fn lemma_list_contract_checks_every_item(
    sigs: Map<u32, ModuleExportSignature>, items: Seq<ValueModel>, t: Seq<char>, other: ValueModel,
)
    requires
        !(other is List),
    ensures
        type_matches(sigs, ValueModel::List(items), "List["@ + t + "]"@)
            == (forall|j: int| 0 <= j < items.len() ==> type_matches(sigs, #[trigger] items[j], spec_trim(t))),
        !type_matches(sigs, other, "List["@ + t + "]"@),
{
    reveal_strlit("List[");
    reveal_strlit("]");
    reveal_strlit("List");
    reveal_strlit("Proc(");
    reveal_strlit("Any");
    reveal_strlit("Unknown");
    reveal_strlit("Null");
    reveal_strlit("Bool");
    reveal_strlit("Int");
    reveal_strlit("UInt");
    reveal_strlit("Float");
    reveal_strlit("Duration");
    reveal_strlit("Str");
    reveal_strlit("Bytes");
    reveal_strlit("Digest");
    reveal_strlit("Regex");
    reveal_strlit("Path");
    reveal_strlit("Map");
    reveal_strlit("Module");
    reveal_strlit("Record");
    reveal_strlit("Status");
    reveal_strlit("EnvPathList");
    reveal_strlit("Error");
    reveal_strlit("ProcessError");
    reveal_strlit("Pure");
    reveal_strlit("Proc");
    reveal_strlit("Command");
    reveal_strlit("ProcessHandle");
    reveal_strlit("NetJob");
    reveal_strlit("Result");
    reveal_strlit("Unit");
    let e = "List["@ + t + "]"@;
    assert(e[0] == 'L' && e[1] == 'i' && e[2] == 's' && e[3] == 't' && e[4] == '[');
    assert(e.last() == ']');
    assert(!is_white_space('L')) by {
        assert(('L' as u32) == 76);
    }
    assert(!is_white_space(']')) by {
        assert((']' as u32) == 93);
    }
    lemma_trim_keeps(e);
    assert(e.subrange(0, 4) =~= "List"@);
    assert(e.subrange(5, e.len() - 1) =~= t);
    assert(crate::contract_text::generic_body(e, "List"@) == Some(spec_trim(t)));
    assert(crate::types::proc_signature_of(e) is None) by {
        if e.len() >= 5 && e.subrange(0, 5) == "Proc("@ {
            assert(e.subrange(0, 5)[0] == 'P');
        }
    }
    assert(crate::types::builtin_of(e) is None);
    lemma_items_match_all(sigs, items, spec_trim(t), 0);
}

/// A stream satisfies `Stream[T]` exactly when every item it holds
/// satisfies `T`; a value that is no stream never does.
pub proof fn lemma_stream_contract_checks_every_item(
    sigs: Map<u32, ModuleExportSignature>, items: Seq<ValueModel>, source: Option<Seq<ValueModel>>, t: Seq<char>,
    other: ValueModel,
)
    requires
        !(other is Stream),
    ensures
        type_matches(sigs, ValueModel::Stream { items, source }, "Stream["@ + t + "]"@)
            == (forall|j: int| 0 <= j < items.len() ==> type_matches(sigs, #[trigger] items[j], spec_trim(t))),
        !type_matches(sigs, other, "Stream["@ + t + "]"@),
{
    reveal_strlit("Stream[");
    reveal_strlit("]");
    reveal_strlit("Stream");
    reveal_strlit("List");
    reveal_strlit("Map");
    reveal_strlit("Result");
    reveal_strlit("Proc(");
    reveal_strlit("Any");
    reveal_strlit("Unknown");
    reveal_strlit("Null");
    reveal_strlit("Bool");
    reveal_strlit("Int");
    reveal_strlit("UInt");
    reveal_strlit("Float");
    reveal_strlit("Duration");
    reveal_strlit("Str");
    reveal_strlit("Bytes");
    reveal_strlit("Digest");
    reveal_strlit("Regex");
    reveal_strlit("Path");
    reveal_strlit("Module");
    reveal_strlit("Record");
    reveal_strlit("Status");
    reveal_strlit("EnvPathList");
    reveal_strlit("Error");
    reveal_strlit("ProcessError");
    reveal_strlit("Pure");
    reveal_strlit("Proc");
    reveal_strlit("Command");
    reveal_strlit("ProcessHandle");
    reveal_strlit("NetJob");
    reveal_strlit("Unit");
    let e = "Stream["@ + t + "]"@;
    assert(e.len() == t.len() + 8);
    assert(e[0] == 'S' && e[1] == 't' && e[2] == 'r' && e[3] == 'e' && e[4] == 'a' && e[5] == 'm' && e[6] == '[');
    assert(e.last() == ']');
    assert(!is_white_space('S')) by {
        assert(('S' as u32) == 83);
    }
    assert(!is_white_space(']')) by {
        assert((']' as u32) == 93);
    }
    lemma_trim_keeps(e);
    assert(e.subrange(0, 6) =~= "Stream"@);
    assert(e.subrange(7, e.len() - 1) =~= t);
    assert(crate::contract_text::generic_body(e, "Stream"@) == Some(spec_trim(t)));
    assert(crate::contract_text::generic_body(e, "List"@) is None) by {
        if e.subrange(0, 4) == "List"@ {
            assert(e.subrange(0, 4)[0] == 'L');
        }
    }
    assert(crate::contract_text::generic_body(e, "Map"@) is None) by {
        if e.subrange(0, 3) == "Map"@ {
            assert(e.subrange(0, 3)[0] == 'M');
        }
    }
    assert(crate::types::proc_signature_of(e) is None) by {
        if e.len() >= 5 && e.subrange(0, 5) == "Proc("@ {
            assert(e.subrange(0, 5)[1] == 'r');
        }
    }
    assert(crate::types::builtin_of(e) is None);
    lemma_items_match_all(sigs, items, spec_trim(t), 0);
}

/// `Int` is satisfied by integers and nothing else, `Str` by texts, `Any`
/// by everything and `Unknown` by nothing.
pub proof fn lemma_builtin_contracts(sigs: Map<u32, ModuleExportSignature>, v: ValueModel)
    ensures
        type_matches(sigs, v, "Int"@) == (v is Int),
        type_matches(sigs, v, "Str"@) == (v is Str),
        type_matches(sigs, v, "Any"@),
        !type_matches(sigs, v, "Unknown"@),
{
    reveal_strlit("Int");
    reveal_strlit("Str");
    reveal_strlit("Any");
    reveal_strlit("Unknown");
    reveal_strlit("List");
    reveal_strlit("Map");
    reveal_strlit("Stream");
    reveal_strlit("Result");
    reveal_strlit("Proc(");
    reveal_strlit("Null");
    reveal_strlit("Bool");
    reveal_strlit("UInt");
    reveal_strlit("Float");
    reveal_strlit("Duration");
    assert(!is_white_space('I') && !is_white_space('t')) by {
        assert(('I' as u32) == 73 && ('t' as u32) == 116);
    }
    assert(!is_white_space('S') && !is_white_space('r')) by {
        assert(('S' as u32) == 83 && ('r' as u32) == 114);
    }
    assert(!is_white_space('A') && !is_white_space('y')) by {
        assert(('A' as u32) == 65 && ('y' as u32) == 121);
    }
    assert(!is_white_space('U') && !is_white_space('n')) by {
        assert(('U' as u32) == 85 && ('n' as u32) == 110);
    }
    lemma_trim_keeps("Int"@);
    lemma_trim_keeps("Str"@);
    lemma_trim_keeps("Any"@);
    lemma_trim_keeps("Unknown"@);
}

/// An error value answers `kind` with its kind and `message` with its
/// message, as texts.
pub proof fn lemma_error_fields(
    kind: Seq<char>, message: Seq<char>, family: Seq<char>, variant: Seq<char>, facets: Seq<Seq<char>>, span: Span,
)
    ensures
        field_value(ValueModel::Error { kind, message, family, variant, facets }, "kind"@, span)
            == Ok::<ValueModel, crate::value::ErrorModel>(ValueModel::Str(kind)),
        field_value(ValueModel::Error { kind, message, family, variant, facets }, "message"@, span)
            == Ok::<ValueModel, crate::value::ErrorModel>(ValueModel::Str(message)),
        field_value(ValueModel::RunError { kind, message }, "kind"@, span)
            == Ok::<ValueModel, crate::value::ErrorModel>(ValueModel::Str(kind)),
        field_value(ValueModel::RunError { kind, message }, "message"@, span)
            == Ok::<ValueModel, crate::value::ErrorModel>(ValueModel::Str(message)),
{
    reveal_strlit("kind");
    reveal_strlit("message");
    assert("message"@.len() == 7);
    assert("kind"@.len() == 4);
    assert("message"@ != "kind"@);
}

/// A status answers `ok` and `success` with whether it succeeded, `kind`
/// with its kind and `segments` with its segment records; a process handle
/// answers `pid`, `command`, `argv` (each argument as a text) and
/// `detached`; a regex answers `pattern`.
pub proof fn lemma_status_handle_and_regex_fields(
    success: bool, kind: Seq<char>, segments: Seq<ValueModel>,
    pid: i64, command: Seq<char>, argv: Seq<Seq<char>>, detached: bool, pattern: Seq<char>, span: Span,
)
    ensures
        field_value(ValueModel::Status { success, kind, segments }, "ok"@, span) == Ok::<ValueModel, crate::value::ErrorModel>(ValueModel::Bool(success)),
        field_value(ValueModel::Status { success, kind, segments }, "success"@, span) == Ok::<ValueModel, crate::value::ErrorModel>(ValueModel::Bool(success)),
        field_value(ValueModel::Status { success, kind, segments }, "kind"@, span) == Ok::<ValueModel, crate::value::ErrorModel>(ValueModel::Str(kind)),
        field_value(ValueModel::Status { success, kind, segments }, "segments"@, span) == Ok::<ValueModel, crate::value::ErrorModel>(ValueModel::List(segments)),
        field_value(ValueModel::ProcessHandle { pid, command, argv, detached }, "pid"@, span) == Ok::<ValueModel, crate::value::ErrorModel>(ValueModel::Int(pid)),
        field_value(ValueModel::ProcessHandle { pid, command, argv, detached }, "command"@, span) == Ok::<ValueModel, crate::value::ErrorModel>(ValueModel::Str(command)),
        field_value(ValueModel::ProcessHandle { pid, command, argv, detached }, "argv"@, span) matches Ok(ValueModel::List(items))
            && items.len() == argv.len() && forall|i: int| 0 <= i < argv.len() ==> items[i] == ValueModel::Str(#[trigger] argv[i]),
        field_value(ValueModel::ProcessHandle { pid, command, argv, detached }, "detached"@, span) == Ok::<ValueModel, crate::value::ErrorModel>(ValueModel::Bool(detached)),
        field_value(ValueModel::Regex(pattern), "pattern"@, span) == Ok::<ValueModel, crate::value::ErrorModel>(ValueModel::Str(pattern)),
{
    reveal_strlit("ok");
    reveal_strlit("success");
    reveal_strlit("kind");
    reveal_strlit("segments");
    reveal_strlit("pid");
    reveal_strlit("command");
    reveal_strlit("argv");
    reveal_strlit("detached");
    reveal_strlit("pattern");
    assert("success"@ != "ok"@) by { assert("success"@.len() != "ok"@.len()); }
    assert("kind"@ != "ok"@ && "kind"@ != "success"@) by { assert("kind"@.len() == 4); }
    assert("segments"@ != "ok"@ && "segments"@ != "success"@ && "segments"@ != "kind"@) by { assert("segments"@.len() == 8); }
    assert("command"@ != "pid"@) by { assert("command"@.len() == 7); }
    assert("argv"@ != "pid"@ && "argv"@ != "command"@) by { assert("argv"@.len() == 4); }
    assert("detached"@ != "pid"@ && "detached"@ != "command"@ && "detached"@ != "argv"@) by { assert("detached"@.len() == 8); }
}

/// A record (or module) answers a field with the value of the first entry
/// of that name.
pub proof fn lemma_record_field_is_its_first_entry(
    before: Seq<(Seq<char>, ValueModel)>, name: Seq<char>, v: ValueModel, after: Seq<(Seq<char>, ValueModel)>, span: Span,
)
    requires
        forall|i: int| 0 <= i < before.len() ==> (#[trigger] before[i]).0 != name,
    ensures
        field_value(ValueModel::Record(before + seq![(name, v)] + after), name, span) == Ok::<ValueModel, crate::value::ErrorModel>(v),
        field_value(ValueModel::Module(before + seq![(name, v)] + after), name, span) == Ok::<ValueModel, crate::value::ErrorModel>(v),
    decreases before.len(),
{
    let e = before + seq![(name, v)] + after;
    if before.len() == 0 {
        assert(e[0] == (name, v));
    } else {
        let rest = before.drop_first();
        assert forall|i: int| 0 <= i < rest.len() implies (#[trigger] rest[i]).0 != name by {
            assert(rest[i] == before[i + 1]);
        }
        lemma_record_field_is_its_first_entry(rest, name, v, after, span);
        assert(e.drop_first() =~= rest + seq![(name, v)] + after);
        assert(e[0] == before[0]);
    }
}

} // verus!
