//! Decoding the argument, environment and redirection lists of `run`
//! commands, and of process command records.
use vstd::prelude::*;
use crate::value::{Span, RuntimeError};
use crate::ir::{FullPayload, FullExecution, IrVerifyError, Name, BLOCK_LIST};
use crate::decode::{
    indexed_error, indexed_raw, indexed_finish, indexed_decode, indexed_optional_raw, optional_raw_of, FullCodec, parse_many, lemma_parse_many_none_stays, list_block_of,
};
use crate::evaluator::Evaluator;

verus! {

/// Where a redirection points a stream.
#[derive(Clone, Copy, PartialEq, Eq, Structural, Debug)]
pub enum RedirectionKind {
    StdinRead,
    StdoutWrite,
    StdoutAppend,
    StderrWrite,
    StderrAppend,
    StdoutDup,
    StdinDup,
}

pub open spec fn redirection_kind_of(code: u32) -> Option<RedirectionKind> {
    if code == 0 { Some(RedirectionKind::StdinRead) }
    else if code == 1 { Some(RedirectionKind::StdoutWrite) }
    else if code == 2 { Some(RedirectionKind::StdoutAppend) }
    else if code == 3 { Some(RedirectionKind::StderrWrite) }
    else if code == 4 { Some(RedirectionKind::StderrAppend) }
    else if code == 5 { Some(RedirectionKind::StdoutDup) }
    else if code == 6 { Some(RedirectionKind::StdinDup) }
    else { None }
}

impl FullCodec for RedirectionKind {
    open spec fn width() -> nat {
        1
    }

    open spec fn from_words(words: Seq<u32>, string_count: nat) -> Option<RedirectionKind> {
        redirection_kind_of(words[0])
    }

    fn decode(payload: &mut FullPayload, execution: &FullExecution) -> (r: Result<RedirectionKind, IrVerifyError>) {
        let ghost rest0 = payload.rest();
        let code = match payload.raw() {
            Ok(c) => c,
            Err(e) => return Err(e),
        };
        assert(payload.rest() =~= rest0.skip(1));
        assert(rest0.take(1)[0] == rest0[0]);
        if code == 0 { Ok(RedirectionKind::StdinRead) }
        else if code == 1 { Ok(RedirectionKind::StdoutWrite) }
        else if code == 2 { Ok(RedirectionKind::StdoutAppend) }
        else if code == 3 { Ok(RedirectionKind::StderrWrite) }
        else if code == 4 { Ok(RedirectionKind::StderrAppend) }
        else if code == 5 { Ok(RedirectionKind::StdoutDup) }
        else if code == 6 { Ok(RedirectionKind::StdinDup) }
        else { Err(IrVerifyError::new("invalid redirection kind")) }
    }
}

/// A `run` argument: how it splices (0 one value, 1 a list spreads, 2 always
/// spreads), the instruction computing it, and its span.
#[derive(Clone, Copy, PartialEq, Eq, Structural, Debug)]
pub struct RunArg {
    pub mode: u32,
    pub value: u32,
    pub span: Span,
}

/// An environment assignment of a `run`.
#[derive(Clone, Copy, PartialEq, Eq, Structural, Debug)]
pub struct RunEnv {
    pub name: Name,
    pub value: RunArg,
}

/// A redirection of a `run`.
#[derive(Clone, Copy, PartialEq, Eq, Structural, Debug)]
pub struct RunRedirection {
    pub kind: RedirectionKind,
    pub target: RunArg,
    pub span: Span,
}

/// One command of a `run` pipeline.
pub struct RunSegment {
    pub target: RunArg,
    pub args: Vec<RunArg>,
    pub env: Vec<RunEnv>,
    pub redirections: Vec<RunRedirection>,
    pub timeout: Option<u32>,
    pub cpu_max: Option<u32>,
}

pub struct RunSegmentModel {
    pub target: RunArg,
    pub args: Seq<RunArg>,
    pub env: Seq<RunEnv>,
    pub redirections: Seq<RunRedirection>,
    pub timeout: Option<u32>,
    pub cpu_max: Option<u32>,
}

impl View for RunSegment {
    type V = RunSegmentModel;

    open spec fn view(&self) -> RunSegmentModel {
        RunSegmentModel {
            target: self.target,
            args: self.args@,
            env: self.env@,
            redirections: self.redirections@,
            timeout: self.timeout,
            cpu_max: self.cpu_max,
        }
    }
}

/// An entry of a process command record: a plain field, or a `run`.
pub enum ProcessCommandEntry {
    Field { name: Name, value: u32, span: Span },
    Run {
        target: RunArg,
        args: Vec<RunArg>,
        env: Vec<RunEnv>,
        timeout: Option<u32>,
        cpu_max: Option<u32>,
        span: Span,
    },
}

pub enum ProcessCommandEntryModel {
    Field { name: Name, value: u32, span: Span },
    Run {
        target: RunArg,
        args: Seq<RunArg>,
        env: Seq<RunEnv>,
        timeout: Option<u32>,
        cpu_max: Option<u32>,
        span: Span,
    },
}

impl View for ProcessCommandEntry {
    type V = ProcessCommandEntryModel;

    open spec fn view(&self) -> ProcessCommandEntryModel {
        match self {
            ProcessCommandEntry::Field { name, value, span } => ProcessCommandEntryModel::Field {
                name: *name,
                value: *value,
                span: *span,
            },
            ProcessCommandEntry::Run { target, args, env, timeout, cpu_max, span } =>
                ProcessCommandEntryModel::Run {
                    target: *target,
                    args: args@,
                    env: env@,
                    timeout: *timeout,
                    cpu_max: *cpu_max,
                    span: *span,
                },
        }
    }
}

pub open spec fn span_of(w: Seq<u32>) -> Span {
    Span { source: w[0], start: w[1], end: w[2] }
}

/// A run argument at the front of `w`: a mode of at most 2, the
/// instruction, and a span.
pub open spec fn run_arg_of(w: Seq<u32>) -> Option<(RunArg, nat)> {
    if w.len() >= 1 && w[0] <= 2 && w.len() >= 5 {
        Some((RunArg { mode: w[0], value: w[1], span: span_of(w.skip(2)) }, 5))
    } else {
        None
    }
}

pub open spec fn run_arg_item() -> spec_fn(Seq<u32>) -> Option<(RunArg, nat)> {
    |w: Seq<u32>| run_arg_of(w)
}

/// An environment assignment: a name, then a run argument.
pub open spec fn run_env_of(w: Seq<u32>, string_count: nat) -> Option<(RunEnv, nat)> {
    if w.len() >= 1 && (w[0] as nat) < string_count {
        match run_arg_of(w.skip(1)) {
            Some((a, k)) => Some((RunEnv { name: Name { id: w[0] }, value: a }, 1 + k)),
            None => None,
        }
    } else {
        None
    }
}

pub open spec fn run_env_item(string_count: nat) -> spec_fn(Seq<u32>) -> Option<(RunEnv, nat)> {
    |w: Seq<u32>| run_env_of(w, string_count)
}

/// A redirection: its kind, its target, and its span.
pub open spec fn run_redirection_of(w: Seq<u32>) -> Option<(RunRedirection, nat)> {
    if w.len() >= 1 && redirection_kind_of(w[0]) is Some {
        match run_arg_of(w.skip(1)) {
            Some((a, k)) => if w.len() >= 9 {
                Some((RunRedirection { kind: redirection_kind_of(w[0])->0, target: a, span: span_of(w.skip(6)) }, 9))
            } else {
                None
            },
            None => None,
        }
    } else {
        None
    }
}

pub open spec fn run_redirection_item() -> spec_fn(Seq<u32>) -> Option<(RunRedirection, nat)> {
    |w: Seq<u32>| run_redirection_of(w)
}

impl Evaluator {
    /// Reads a run argument.
    pub fn decode_indexed_run_arg(
        payload: &mut FullPayload,
        execution: &FullExecution,
        span: Span,
    ) -> (r: Result<RunArg, RuntimeError>)
        requires
            old(payload).wf(),
        ensures
            final(payload).wf(),
            final(payload).words@ == old(payload).words@,
            match r {
                Ok(a) => run_arg_of(old(payload).rest()) == Some((a, 5nat))
                    && final(payload).rest() == old(payload).rest().skip(5),
                Err(e) => run_arg_of(old(payload).rest()) is None && e@.kind == "indexed-ir"@
                    && e@.span == Some(span),
            },
    {
        let ghost rest0 = payload.rest();
        let mode = indexed_raw(payload, span)?;
        if mode > 2 {
            return Err(RuntimeError::new("indexed-ir", "invalid indexed run argument tag").with_span(span));
        }
        let value = indexed_raw(payload, span)?;
        let ghost rest2 = payload.rest();
        let s = indexed_decode::<Span>(payload, execution, span)?;
        assert(rest2 =~= rest0.skip(2));
        assert(rest0.skip(2).take(3) =~= rest0.skip(2).take(3));
        assert(payload.rest() =~= rest0.skip(5));
        Ok(RunArg { mode, value, span: s })
    }

    /// Reads an environment assignment.
    pub fn decode_indexed_run_env_entry(
        payload: &mut FullPayload,
        execution: &FullExecution,
        span: Span,
    ) -> (r: Result<RunEnv, RuntimeError>)
        requires
            old(payload).wf(),
        ensures
            final(payload).wf(),
            final(payload).words@ == old(payload).words@,
            match r {
                Ok(a) => run_env_of(old(payload).rest(), execution.strings@.len()) == Some((a, 6nat))
                    && final(payload).rest() == old(payload).rest().skip(6),
                Err(e) => run_env_of(old(payload).rest(), execution.strings@.len()) is None
                    && e@.kind == "indexed-ir"@ && e@.span == Some(span),
            },
    {
        let ghost rest0 = payload.rest();
        let name = indexed_decode::<Name>(payload, execution, span)?;
        assert(rest0.take(1)[0] == rest0[0]);
        assert(payload.rest() =~= rest0.skip(1));
        let value = Self::decode_indexed_run_arg(payload, execution, span)?;
        assert(payload.rest() =~= rest0.skip(6));
        Ok(RunEnv { name, value })
    }

    /// Reads a redirection.
    pub fn decode_indexed_run_redirection(
        payload: &mut FullPayload,
        execution: &FullExecution,
        span: Span,
    ) -> (r: Result<RunRedirection, RuntimeError>)
        requires
            old(payload).wf(),
        ensures
            final(payload).wf(),
            final(payload).words@ == old(payload).words@,
            match r {
                Ok(a) => run_redirection_of(old(payload).rest()) == Some((a, 9nat))
                    && final(payload).rest() == old(payload).rest().skip(9),
                Err(e) => run_redirection_of(old(payload).rest()) is None
                    && e@.kind == "indexed-ir"@ && e@.span == Some(span),
            },
    {
        let ghost rest0 = payload.rest();
        let kind = indexed_decode::<RedirectionKind>(payload, execution, span)?;
        assert(rest0.take(1)[0] == rest0[0]);
        assert(payload.rest() =~= rest0.skip(1));
        let target = Self::decode_indexed_run_arg(payload, execution, span)?;
        assert(payload.rest() =~= rest0.skip(6));
        let ghost rest6 = payload.rest();
        let s = indexed_decode::<Span>(payload, execution, span)?;
        assert(payload.rest() =~= rest0.skip(9));
        Ok(RunRedirection { kind, target, span: s })
    }
}

} // verus!

verus! {

impl Evaluator {
    /// Reads a list block of run arguments.
    pub fn decode_indexed_run_args(
        payload: &mut FullPayload,
        execution: &FullExecution,
        span: Span,
    ) -> (r: Result<Vec<RunArg>, RuntimeError>)
        requires
            old(payload).wf(),
        ensures
            final(payload).wf(),
            final(payload).words@ == old(payload).words@,
            match r {
                Ok(out) => list_block_of(execution, old(payload).rest(), run_arg_item()) == Some(out@)
                    && final(payload).rest() == old(payload).rest().drop_first(),
                Err(e) => list_block_of(execution, old(payload).rest(), run_arg_item()) is None
                    && e@.kind == "indexed-ir"@ && e@.span == Some(span),
            },
    {
        let ghost rest0 = payload.rest();
        let ghost item = run_arg_item();
        let (_, mut values) = match execution.block(payload, BLOCK_LIST) {
            Ok(x) => x,
            Err(error) => return Err(indexed_error(error, span)),
        };
        let ghost w = values.rest();
        let len = indexed_raw(&mut values, span)? as usize;
        let ghost body = w.drop_first();
        let mut decoded: Vec<RunArg> = Vec::new();
        let ghost mut used: nat = 0;
        let mut i: usize = 0;
        assert(values.rest() =~= body.skip(0));
        while i < len
            invariant
                values.wf(),
                item == run_arg_item(),
                payload.wf(),
                payload.words@ == old(payload).words@,
                rest0 == old(payload).rest(),
                rest0.len() > 0,
                payload.rest() == rest0.drop_first(),
                execution.block_ok(rest0[0], BLOCK_LIST),
                w == execution.blocks@[rest0[0] as int].words@,
                i <= len,
                len == w[0],
                w.len() > 0,
                body == w.drop_first(),
                used <= body.len(),
                values.rest() == body.skip(used as int),
                parse_many(body, i as nat, item) == Some((decoded@, used)),
            decreases len - i,
        {
            let ghost r0 = values.rest();
            let x = match Self::decode_indexed_run_arg(&mut values, execution, span) {
                Ok(x) => x,
                Err(e) => {
                    proof {
                        assert(item(r0) is None);
                        assert(parse_many(body, (i + 1) as nat, item) is None);
                        lemma_parse_many_none_stays(body, (i + 1) as nat, len as nat, item);
                    }
                    return Err(e);
                },
            };
            proof {
                let k = (item(r0)->0).1;
                assert(k <= r0.len());
                assert(values.rest() =~= body.skip((used + k) as int));
                used = used + k;
            }
            decoded.push(x);
            proof {
                assert(decoded@ =~= (parse_many(body, (i + 1) as nat, item)->0).0);
            }
            i = i + 1;
        }
        let fin = indexed_finish(values, span);
        if fin.is_err() {
            return Err(RuntimeError::new("indexed-ir", "indexed IR verification failed: payload has trailing words").with_span(span));
        }
        Ok(decoded)
    }

    /// Reads a list block of environment assignments.
    pub fn decode_indexed_run_env(
        payload: &mut FullPayload,
        execution: &FullExecution,
        span: Span,
    ) -> (r: Result<Vec<RunEnv>, RuntimeError>)
        requires
            old(payload).wf(),
        ensures
            final(payload).wf(),
            final(payload).words@ == old(payload).words@,
            match r {
                Ok(out) => list_block_of(execution, old(payload).rest(), run_env_item(execution.strings@.len())) == Some(out@)
                    && final(payload).rest() == old(payload).rest().drop_first(),
                Err(e) => list_block_of(execution, old(payload).rest(), run_env_item(execution.strings@.len())) is None
                    && e@.kind == "indexed-ir"@ && e@.span == Some(span),
            },
    {
        let ghost rest0 = payload.rest();
        let ghost item = run_env_item(execution.strings@.len());
        let (_, mut values) = match execution.block(payload, BLOCK_LIST) {
            Ok(x) => x,
            Err(error) => return Err(indexed_error(error, span)),
        };
        let ghost w = values.rest();
        let len = indexed_raw(&mut values, span)? as usize;
        let ghost body = w.drop_first();
        let mut decoded: Vec<RunEnv> = Vec::new();
        let ghost mut used: nat = 0;
        let mut i: usize = 0;
        assert(values.rest() =~= body.skip(0));
        while i < len
            invariant
                values.wf(),
                item == run_env_item(execution.strings@.len()),
                payload.wf(),
                payload.words@ == old(payload).words@,
                rest0 == old(payload).rest(),
                rest0.len() > 0,
                payload.rest() == rest0.drop_first(),
                execution.block_ok(rest0[0], BLOCK_LIST),
                w == execution.blocks@[rest0[0] as int].words@,
                i <= len,
                len == w[0],
                w.len() > 0,
                body == w.drop_first(),
                used <= body.len(),
                values.rest() == body.skip(used as int),
                parse_many(body, i as nat, item) == Some((decoded@, used)),
            decreases len - i,
        {
            let ghost r0 = values.rest();
            let x = match Self::decode_indexed_run_env_entry(&mut values, execution, span) {
                Ok(x) => x,
                Err(e) => {
                    proof {
                        assert(item(r0) is None);
                        assert(parse_many(body, (i + 1) as nat, item) is None);
                        lemma_parse_many_none_stays(body, (i + 1) as nat, len as nat, item);
                    }
                    return Err(e);
                },
            };
            proof {
                let k = (item(r0)->0).1;
                assert(k <= r0.len());
                assert(values.rest() =~= body.skip((used + k) as int));
                used = used + k;
            }
            decoded.push(x);
            proof {
                assert(decoded@ =~= (parse_many(body, (i + 1) as nat, item)->0).0);
            }
            i = i + 1;
        }
        let fin = indexed_finish(values, span);
        if fin.is_err() {
            return Err(RuntimeError::new("indexed-ir", "indexed IR verification failed: payload has trailing words").with_span(span));
        }
        Ok(decoded)
    }

    /// Reads a list block of redirections.
    pub fn decode_indexed_run_redirections(
        payload: &mut FullPayload,
        execution: &FullExecution,
        span: Span,
    ) -> (r: Result<Vec<RunRedirection>, RuntimeError>)
        requires
            old(payload).wf(),
        ensures
            final(payload).wf(),
            final(payload).words@ == old(payload).words@,
            match r {
                Ok(out) => list_block_of(execution, old(payload).rest(), run_redirection_item()) == Some(out@)
                    && final(payload).rest() == old(payload).rest().drop_first(),
                Err(e) => list_block_of(execution, old(payload).rest(), run_redirection_item()) is None
                    && e@.kind == "indexed-ir"@ && e@.span == Some(span),
            },
    {
        let ghost rest0 = payload.rest();
        let ghost item = run_redirection_item();
        let (_, mut values) = match execution.block(payload, BLOCK_LIST) {
            Ok(x) => x,
            Err(error) => return Err(indexed_error(error, span)),
        };
        let ghost w = values.rest();
        let len = indexed_raw(&mut values, span)? as usize;
        let ghost body = w.drop_first();
        let mut decoded: Vec<RunRedirection> = Vec::new();
        let ghost mut used: nat = 0;
        let mut i: usize = 0;
        assert(values.rest() =~= body.skip(0));
        while i < len
            invariant
                values.wf(),
                item == run_redirection_item(),
                payload.wf(),
                payload.words@ == old(payload).words@,
                rest0 == old(payload).rest(),
                rest0.len() > 0,
                payload.rest() == rest0.drop_first(),
                execution.block_ok(rest0[0], BLOCK_LIST),
                w == execution.blocks@[rest0[0] as int].words@,
                i <= len,
                len == w[0],
                w.len() > 0,
                body == w.drop_first(),
                used <= body.len(),
                values.rest() == body.skip(used as int),
                parse_many(body, i as nat, item) == Some((decoded@, used)),
            decreases len - i,
        {
            let ghost r0 = values.rest();
            let x = match Self::decode_indexed_run_redirection(&mut values, execution, span) {
                Ok(x) => x,
                Err(e) => {
                    proof {
                        assert(item(r0) is None);
                        assert(parse_many(body, (i + 1) as nat, item) is None);
                        lemma_parse_many_none_stays(body, (i + 1) as nat, len as nat, item);
                    }
                    return Err(e);
                },
            };
            proof {
                let k = (item(r0)->0).1;
                assert(k <= r0.len());
                assert(values.rest() =~= body.skip((used + k) as int));
                used = used + k;
            }
            decoded.push(x);
            proof {
                assert(decoded@ =~= (parse_many(body, (i + 1) as nat, item)->0).0);
            }
            i = i + 1;
        }
        let fin = indexed_finish(values, span);
        if fin.is_err() {
            return Err(RuntimeError::new("indexed-ir", "indexed IR verification failed: payload has trailing words").with_span(span));
        }
        Ok(decoded)
    }
}

} // verus!

verus! {

/// One `run` pipeline segment: a run-kind word, the target, the argument,
/// environment and redirection list blocks, and the optional timeout and
/// CPU-limit instructions.
pub open spec fn run_segment_of(execution: &FullExecution, w: Seq<u32>) -> Option<(RunSegmentModel, nat)> {
    if w.len() >= 1 {
        match run_arg_of(w.skip(1)) {
            Some((target, _)) => match list_block_of(execution, w.skip(6), run_arg_item()) {
                Some(args) => match list_block_of(execution, w.skip(7), run_env_item(execution.strings@.len())) {
                    Some(env) => match list_block_of(execution, w.skip(8), run_redirection_item()) {
                        Some(redirections) => match optional_raw_of(w.skip(9)) {
                            Some((timeout, n1)) => match optional_raw_of(w.skip((9 + n1) as int)) {
                                Some((cpu_max, n2)) => Some((
                                    RunSegmentModel { target, args, env, redirections, timeout, cpu_max },
                                    9 + n1 + n2,
                                )),
                                None => None,
                            },
                            None => None,
                        },
                        None => None,
                    },
                    None => None,
                },
                None => None,
            },
            None => None,
        }
    } else {
        None
    }
}

pub open spec fn run_segment_item(execution: &FullExecution) -> spec_fn(Seq<u32>) -> Option<(RunSegmentModel, nat)> {
    |w: Seq<u32>| run_segment_of(execution, w)
}

impl Evaluator {
    /// Reads one pipeline segment.
    pub fn decode_indexed_run_segment(
        payload: &mut FullPayload,
        execution: &FullExecution,
        span: Span,
    ) -> (r: Result<RunSegment, RuntimeError>)
        requires
            old(payload).wf(),
        ensures
            final(payload).wf(),
            final(payload).words@ == old(payload).words@,
            match r {
                Ok(s) => run_segment_of(execution, old(payload).rest()) matches Some((m, k)) && m == s@
                    && final(payload).rest() == old(payload).rest().skip(k as int),
                Err(e) => run_segment_of(execution, old(payload).rest()) is None
                    && e@.kind == "indexed-ir"@ && e@.span == Some(span),
            },
    {
        let ghost w = payload.rest();
        let _kind = indexed_raw(payload, span)?;
        assert(payload.rest() =~= w.skip(1));
        let target = Self::decode_indexed_run_arg(payload, execution, span)?;
        assert(payload.rest() =~= w.skip(6));
        let args = Self::decode_indexed_run_args(payload, execution, span)?;
        assert(payload.rest() =~= w.skip(7));
        let env = Self::decode_indexed_run_env(payload, execution, span)?;
        assert(payload.rest() =~= w.skip(8));
        let redirections = Self::decode_indexed_run_redirections(payload, execution, span)?;
        assert(payload.rest() =~= w.skip(9));
        let timeout = indexed_optional_raw(payload, span)?;
        let ghost n1 = (optional_raw_of(w.skip(9))->0).1;
        assert(payload.rest() =~= w.skip((9 + n1) as int));
        let cpu_max = indexed_optional_raw(payload, span)?;
        let ghost n2 = (optional_raw_of(w.skip((9 + n1) as int))->0).1;
        assert(payload.rest() =~= w.skip((9 + n1 + n2) as int));
        Ok(RunSegment { target, args, env, redirections, timeout, cpu_max })
    }
}

} // verus!

verus! {

/// One process command entry: tag 0 is a field (name, instruction, span),
/// tag 1 a `run` (target, argument and environment list blocks, optional
/// timeout and CPU limit, span).
pub open spec fn process_command_entry_of(execution: &FullExecution, w: Seq<u32>) -> Option<(ProcessCommandEntryModel, nat)> {
    if w.len() >= 1 && w[0] == 0 {
        if w.len() >= 6 && (w[1] as nat) < execution.strings@.len() {
            Some((ProcessCommandEntryModel::Field { name: Name { id: w[1] }, value: w[2], span: span_of(w.skip(3)) }, 6))
        } else {
            None
        }
    } else if w.len() >= 1 && w[0] == 1 {
        match run_arg_of(w.skip(1)) {
            Some((target, _)) => match list_block_of(execution, w.skip(6), run_arg_item()) {
                Some(args) => match list_block_of(execution, w.skip(7), run_env_item(execution.strings@.len())) {
                    Some(env) => match optional_raw_of(w.skip(8)) {
                        Some((timeout, n1)) => match optional_raw_of(w.skip((8 + n1) as int)) {
                            Some((cpu_max, n2)) => if w.len() >= 8 + n1 + n2 + 3 {
                                Some((
                                    ProcessCommandEntryModel::Run {
                                        target, args, env, timeout, cpu_max,
                                        span: span_of(w.skip((8 + n1 + n2) as int)),
                                    },
                                    11 + n1 + n2,
                                ))
                            } else {
                                None
                            },
                            None => None,
                        },
                        None => None,
                    },
                    None => None,
                },
                None => None,
            },
            None => None,
        }
    } else {
        None
    }
}

pub open spec fn process_command_entry_item(execution: &FullExecution) -> spec_fn(Seq<u32>) -> Option<(ProcessCommandEntryModel, nat)> {
    |w: Seq<u32>| process_command_entry_of(execution, w)
}

impl Evaluator {
    /// Reads one process command entry.
    pub fn decode_indexed_process_command_entry(
        payload: &mut FullPayload,
        execution: &FullExecution,
        span: Span,
    ) -> (r: Result<ProcessCommandEntry, RuntimeError>)
        requires
            old(payload).wf(),
        ensures
            final(payload).wf(),
            final(payload).words@ == old(payload).words@,
            match r {
                Ok(s) => process_command_entry_of(execution, old(payload).rest()) matches Some((m, k)) && m == s@
                    && final(payload).rest() == old(payload).rest().skip(k as int),
                Err(e) => process_command_entry_of(execution, old(payload).rest()) is None
                    && e@.kind == "indexed-ir"@ && e@.span == Some(span),
            },
    {
        let ghost w = payload.rest();
        let tag = indexed_raw(payload, span)?;
        assert(payload.rest() =~= w.skip(1));
        if tag == 0 {
            let name = indexed_decode::<Name>(payload, execution, span)?;
            assert(w.skip(1).take(1)[0] == w[1]);
            assert(payload.rest() =~= w.skip(2));
            let value = indexed_raw(payload, span)?;
            assert(payload.rest() =~= w.skip(3));
            let s = indexed_decode::<Span>(payload, execution, span)?;
            assert(payload.rest() =~= w.skip(6));
            Ok(ProcessCommandEntry::Field { name, value, span: s })
        } else if tag == 1 {
            let target = Self::decode_indexed_run_arg(payload, execution, span)?;
            assert(payload.rest() =~= w.skip(6));
            let args = Self::decode_indexed_run_args(payload, execution, span)?;
            assert(payload.rest() =~= w.skip(7));
            let env = Self::decode_indexed_run_env(payload, execution, span)?;
            assert(payload.rest() =~= w.skip(8));
            let timeout = indexed_optional_raw(payload, span)?;
            let ghost n1 = (optional_raw_of(w.skip(8))->0).1;
            assert(payload.rest() =~= w.skip((8 + n1) as int));
            let cpu_max = indexed_optional_raw(payload, span)?;
            let ghost n2 = (optional_raw_of(w.skip((8 + n1) as int))->0).1;
            assert(payload.rest() =~= w.skip((8 + n1 + n2) as int));
            let s = indexed_decode::<Span>(payload, execution, span)?;
            assert(payload.rest() =~= w.skip((11 + n1 + n2) as int));
            Ok(ProcessCommandEntry::Run { target, args, env, timeout, cpu_max, span: s })
        } else {
            Err(RuntimeError::new("indexed-ir", "invalid indexed process command entry tag").with_span(span))
        }
    }
}

} // verus!

verus! {

impl Evaluator {
    /// Reads a list block of pipeline segments.
    pub fn decode_indexed_run_segments(
        payload: &mut FullPayload,
        execution: &FullExecution,
        span: Span,
    ) -> (r: Result<Vec<RunSegment>, RuntimeError>)
        requires
            old(payload).wf(),
        ensures
            final(payload).wf(),
            final(payload).words@ == old(payload).words@,
            match r {
                Ok(out) => list_block_of(execution, old(payload).rest(), run_segment_item(execution)) == Some(out@.map_values(|x: RunSegment| x@))
                    && final(payload).rest() == old(payload).rest().drop_first(),
                Err(e) => list_block_of(execution, old(payload).rest(), run_segment_item(execution)) is None
                    && e@.kind == "indexed-ir"@ && e@.span == Some(span),
            },
    {
        let ghost rest0 = payload.rest();
        let ghost item = run_segment_item(execution);
        let (_, mut values) = match execution.block(payload, BLOCK_LIST) {
            Ok(x) => x,
            Err(error) => return Err(indexed_error(error, span)),
        };
        let ghost w = values.rest();
        let len = indexed_raw(&mut values, span)? as usize;
        let ghost body = w.drop_first();
        let mut decoded: Vec<RunSegment> = Vec::new();
        let ghost mut used: nat = 0;
        let mut i: usize = 0;
        assert(values.rest() =~= body.skip(0));
        while i < len
            invariant
                values.wf(),
                item == run_segment_item(execution),
                payload.wf(),
                payload.words@ == old(payload).words@,
                rest0 == old(payload).rest(),
                rest0.len() > 0,
                payload.rest() == rest0.drop_first(),
                execution.block_ok(rest0[0], BLOCK_LIST),
                w == execution.blocks@[rest0[0] as int].words@,
                i <= len,
                len == w[0],
                w.len() > 0,
                body == w.drop_first(),
                used <= body.len(),
                values.rest() == body.skip(used as int),
                parse_many(body, i as nat, item) == Some((decoded@.map_values(|x: RunSegment| x@), used)),
            decreases len - i,
        {
            let ghost r0 = values.rest();
            let x = match Self::decode_indexed_run_segment(&mut values, execution, span) {
                Ok(x) => x,
                Err(e) => {
                    proof {
                        assert(item(r0) is None);
                        assert(parse_many(body, (i + 1) as nat, item) is None);
                        lemma_parse_many_none_stays(body, (i + 1) as nat, len as nat, item);
                    }
                    return Err(e);
                },
            };
            proof {
                let k = (item(r0)->0).1;
                assert(k <= r0.len());
                assert(values.rest() =~= body.skip((used + k) as int));
                used = used + k;
            }
            decoded.push(x);
            proof {
                assert(decoded@.map_values(|x: RunSegment| x@) =~= (parse_many(body, (i + 1) as nat, item)->0).0);
            }
            i = i + 1;
        }
        let fin = indexed_finish(values, span);
        if fin.is_err() {
            return Err(RuntimeError::new("indexed-ir", "indexed IR verification failed: payload has trailing words").with_span(span));
        }
        Ok(decoded)
    }

    /// Reads a list block of process command entries.
    pub fn decode_indexed_process_command_entries(
        payload: &mut FullPayload,
        execution: &FullExecution,
        span: Span,
    ) -> (r: Result<Vec<ProcessCommandEntry>, RuntimeError>)
        requires
            old(payload).wf(),
        ensures
            final(payload).wf(),
            final(payload).words@ == old(payload).words@,
            match r {
                Ok(out) => list_block_of(execution, old(payload).rest(), process_command_entry_item(execution)) == Some(out@.map_values(|x: ProcessCommandEntry| x@))
                    && final(payload).rest() == old(payload).rest().drop_first(),
                Err(e) => list_block_of(execution, old(payload).rest(), process_command_entry_item(execution)) is None
                    && e@.kind == "indexed-ir"@ && e@.span == Some(span),
            },
    {
        let ghost rest0 = payload.rest();
        let ghost item = process_command_entry_item(execution);
        let (_, mut values) = match execution.block(payload, BLOCK_LIST) {
            Ok(x) => x,
            Err(error) => return Err(indexed_error(error, span)),
        };
        let ghost w = values.rest();
        let len = indexed_raw(&mut values, span)? as usize;
        let ghost body = w.drop_first();
        let mut decoded: Vec<ProcessCommandEntry> = Vec::new();
        let ghost mut used: nat = 0;
        let mut i: usize = 0;
        assert(values.rest() =~= body.skip(0));
        while i < len
            invariant
                values.wf(),
                item == process_command_entry_item(execution),
                payload.wf(),
                payload.words@ == old(payload).words@,
                rest0 == old(payload).rest(),
                rest0.len() > 0,
                payload.rest() == rest0.drop_first(),
                execution.block_ok(rest0[0], BLOCK_LIST),
                w == execution.blocks@[rest0[0] as int].words@,
                i <= len,
                len == w[0],
                w.len() > 0,
                body == w.drop_first(),
                used <= body.len(),
                values.rest() == body.skip(used as int),
                parse_many(body, i as nat, item) == Some((decoded@.map_values(|x: ProcessCommandEntry| x@), used)),
            decreases len - i,
        {
            let ghost r0 = values.rest();
            let x = match Self::decode_indexed_process_command_entry(&mut values, execution, span) {
                Ok(x) => x,
                Err(e) => {
                    proof {
                        assert(item(r0) is None);
                        assert(parse_many(body, (i + 1) as nat, item) is None);
                        lemma_parse_many_none_stays(body, (i + 1) as nat, len as nat, item);
                    }
                    return Err(e);
                },
            };
            proof {
                let k = (item(r0)->0).1;
                assert(k <= r0.len());
                assert(values.rest() =~= body.skip((used + k) as int));
                used = used + k;
            }
            decoded.push(x);
            proof {
                assert(decoded@.map_values(|x: ProcessCommandEntry| x@) =~= (parse_many(body, (i + 1) as nat, item)->0).0);
            }
            i = i + 1;
        }
        let fin = indexed_finish(values, span);
        if fin.is_err() {
            return Err(RuntimeError::new("indexed-ir", "indexed IR verification failed: payload has trailing words").with_span(span));
        }
        Ok(decoded)
    }
}

} // verus!
