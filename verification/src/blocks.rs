//! Decoding counted blocks: statement lists and call arguments.
use vstd::prelude::*;
use crate::value::{Span, RuntimeError};
use crate::ir::{FullPayload, FullExecution, BLOCK_LIST, BLOCK_STATEMENTS};
use crate::decode::{
    indexed_error, indexed_raw, indexed_finish, is_ir_error, parse_many, lemma_parse_many_none_stays,
    list_block_of,
};

verus! {

/// One call argument: its mode word and its instruction.
pub open spec fn call_arg_of(w: Seq<u32>) -> Option<((u32, u32), nat)> {
    if w.len() >= 2 { Some(((w[0], w[1]), 2)) } else { None }
}

pub open spec fn call_arg_item() -> spec_fn(Seq<u32>) -> Option<((u32, u32), nat)> {
    |w: Seq<u32>| call_arg_of(w)
}

/// One statement instruction.
pub open spec fn statement_of(w: Seq<u32>) -> Option<(u32, nat)> {
    if w.len() >= 1 { Some((w[0], 1)) } else { None }
}

/// A statement list: a count, then exactly that many instructions.
pub open spec fn statements_of(w: Seq<u32>) -> Option<Seq<u32>> {
    if w.len() > 0 && w.len() - 1 == w[0] {
        Some(w.drop_first())
    } else {
        None
    }
}

/// The argument list a call's payload names.
pub fn decode_call_args(
    execution: &FullExecution,
    payload: &mut FullPayload,
    span: Span,
) -> (r: Result<Vec<(u32, u32)>, RuntimeError>)
    requires
        old(payload).wf(),
    ensures
        final(payload).wf(),
        final(payload).words@ == old(payload).words@,
        match r {
            Ok(args) => list_block_of(execution, old(payload).rest(), call_arg_item()) == Some(args@)
                && final(payload).rest() == old(payload).rest().drop_first(),
            Err(e) => list_block_of(execution, old(payload).rest(), call_arg_item()) is None
                && e@.kind == "indexed-ir"@ && e@.span == Some(span),
        },
{
    let ghost rest0 = payload.rest();
    let ghost item = call_arg_item();
    let (_, mut args) = match execution.block(payload, BLOCK_LIST) {
        Ok(x) => x,
        Err(error) => return Err(indexed_error(error, span)),
    };
    let ghost w = args.rest();
    let len = indexed_raw(&mut args, span)? as usize;
    let ghost body = w.drop_first();
    let mut values: Vec<(u32, u32)> = Vec::new();
    let ghost mut used: nat = 0;
    let mut i: usize = 0;
    assert(args.rest() =~= body.skip(0));
    while i < len
        invariant
            args.wf(),
            item == call_arg_item(),
            payload.wf(),
            payload.words@ == old(payload).words@,
            rest0 == old(payload).rest(),
            rest0.len() > 0,
            payload.rest() == rest0.drop_first(),
            execution.block_ok(rest0[0], BLOCK_LIST),
            w == execution.blocks@[rest0[0] as int].words@,
            i <= len,
            len == w[0],
            w.len() > 0,
            body == w.drop_first(),
            used <= body.len(),
            args.rest() == body.skip(used as int),
            parse_many(body, i as nat, item) == Some((values@, used)),
        decreases len - i,
    {
        let ghost r0 = args.rest();
        let a = match indexed_raw(&mut args, span) {
            Ok(a) => a,
            Err(e) => {
                proof {
                    assert(item(r0) is None);
                    assert(parse_many(body, (i + 1) as nat, item) is None);
                    lemma_parse_many_none_stays(body, (i + 1) as nat, len as nat, item);
                }
                return Err(e);
            },
        };
        let b = match indexed_raw(&mut args, span) {
            Ok(b) => b,
            Err(e) => {
                proof {
                    assert(item(r0) is None);
                    assert(parse_many(body, (i + 1) as nat, item) is None);
                    lemma_parse_many_none_stays(body, (i + 1) as nat, len as nat, item);
                }
                return Err(e);
            },
        };
        values.push((a, b));
        proof {
            assert(r0 == body.skip(used as int));
            assert(args.rest() =~= body.skip(used + 2int));
            used = used + 2;
        }
        i = i + 1;
    }
    let fin = indexed_finish(args, span);
    if fin.is_err() {
        return Err(RuntimeError::new("indexed-ir", "indexed IR verification failed: payload has trailing words").with_span(span));
    }
    assert(used == w.len() - 1);
    Ok(values)
}

} // verus!

verus! {

/// A statement block's instructions, reversed so a frame pops them in the
/// order they run: the last element is the block's first statement.
pub fn decode_statements_into(
    payload: FullPayload,
    span: Span,
    statements: &mut Vec<u32>,
) -> (r: Result<(), RuntimeError>)
    requires
        payload.wf(),
    ensures
        match r {
            Ok(()) => statements_of(payload.rest()) matches Some(s) && final(statements)@ == s.reverse(),
            Err(e) => statements_of(payload.rest()) is None && is_ir_error(e@, span),
        },
{
    let mut cursor = payload;
    let ghost w = payload.rest();
    let len = indexed_raw(&mut cursor, span)? as usize;
    let mut decoded: Vec<u32> = Vec::new();
    let mut i: usize = 0;
    while i < len
        invariant
            cursor.wf(),
            w == payload.rest(),
            w.len() > 0,
            len == w[0],
            i <= len,
            i <= w.len() - 1,
            cursor.rest() == w.drop_first().skip(i as int),
            decoded@ == w.drop_first().take(i as int),
        decreases len - i,
    {
        let s = match indexed_raw(&mut cursor, span) {
            Ok(s) => s,
            Err(e) => return Err(e),
        };
        decoded.push(s);
        i = i + 1;
        assert(decoded@ =~= w.drop_first().take(i as int));
        assert(cursor.rest() =~= w.drop_first().skip(i as int));
    }
    indexed_finish(cursor, span)?;
    assert(decoded@ =~= w.drop_first());
    statements.clear();
    let mut j: usize = decoded.len();
    while j > 0
        invariant
            j <= decoded@.len(),
            statements@ == decoded@.subrange(j as int, decoded@.len() as int).reverse(),
        decreases j,
    {
        j = j - 1;
        statements.push(decoded[j]);
        assert(statements@ =~= decoded@.subrange(j as int, decoded@.len() as int).reverse());
    }
    assert(decoded@.subrange(0, decoded@.len() as int) =~= decoded@);
    Ok(())
}

/// A statement block's instructions, reversed for popping.
pub fn decode_statements(payload: FullPayload, span: Span) -> (r: Result<Vec<u32>, RuntimeError>)
    requires
        payload.wf(),
    ensures
        match r {
            Ok(s) => statements_of(payload.rest()) matches Some(t) && s@ == t.reverse(),
            Err(e) => statements_of(payload.rest()) is None && is_ir_error(e@, span),
        },
{
    let mut statements = Vec::new();
    decode_statements_into(payload, span, &mut statements)?;
    Ok(statements)
}

/// The statements of block `block`, which must be a statement block.
pub open spec fn statement_block_of(execution: &FullExecution, block: u32) -> Option<Seq<u32>> {
    if execution.block_ok(block, BLOCK_STATEMENTS) {
        statements_of(execution.blocks@[block as int].words@)
    } else {
        None
    }
}

/// Fills `statements` with block `block`'s instructions, reversed for popping.
pub fn decode_statement_block_into(
    execution: &FullExecution,
    block: u32,
    span: Span,
    statements: &mut Vec<u32>,
) -> (r: Result<(), RuntimeError>)
    ensures
        match r {
            Ok(()) => statement_block_of(execution, block) matches Some(s) && final(statements)@ == s.reverse(),
            Err(e) => statement_block_of(execution, block) is None && e@.kind == "indexed-ir"@
                && e@.span == Some(span),
        },
{
    let (_, payload) = match execution.block_id(block, BLOCK_STATEMENTS) {
        Ok(x) => x,
        Err(error) => return Err(indexed_error(error, span)),
    };
    decode_statements_into(payload, span, statements)
}

} // verus!
