//! What every serial pipeline keeps: its tallies within its limit, so a
//! final `take` bounds the output; and a halted pipeline pulls nothing.
use vstd::prelude::*;
use crate::value::{ValueModel, Span, ErrorModel};
use crate::ir::FullProgram;
use crate::semantics::{Machine, Flow, set_slot, ev_expr};
use crate::serial::IndexedLiveSerialStage;
use crate::pipeline::{
    SerialCore, halted, pass_row, pass_rows, serial_drain, serial_next, start_core, stage_limit, with_stage, ev_block,
    spec_select_row, spec_stage_body, flat_rows,
};

verus! {

/// The tallies a running pipeline keeps within bounds: it never counts out
/// more rows than its limit, and never holds more ready rows than it
/// counted out.
pub open spec fn tallies_ok(c: SerialCore) -> bool {
    c.emitted <= c.limit && c.ready.len() <= c.emitted
}

/// The outcome of passing rows keeps the tallies within bounds and the
/// limit unchanged.
pub open spec fn keeps_tallies(c: SerialCore, r: Result<(SerialCore, Option<ValueModel>, Machine), ErrorModel>) -> bool {
    r matches Ok((c1, _, _)) ==> tallies_ok(c1) && c1.limit == c.limit
}

proof fn lemma_pass_row_tallies(
    p: FullProgram, b: nat, n: nat, k: nat, c: SerialCore, v: ValueModel, m: Machine, span: Span, cs: Span,
)
    requires
        tallies_ok(c),
    ensures
        keeps_tallies(c, pass_row(p, b, n, k, c, v, m, span, cs)),
    decreases n - k, 0int,
{
    if !halted(c) && k < n {
        match c.stages[k as int] {
            IndexedLiveSerialStage::Tee { slot, body } => if slot < m.slots.len() {
                match ev_block(p, b, body, set_slot(m, slot as int, v), cs) {
                    Ok((end, m1)) => if slot < m1.slots.len() {
                        lemma_pass_row_tallies(p, b, n, k + 1, c, v, set_slot(m1, slot as int, ValueModel::Unit), span, cs);
                    },
                    _ => {},
                }
            },
            IndexedLiveSerialStage::Where { slot, predicate } => if slot < m.slots.len() {
                match spec_select_row(p, b, slot, predicate, set_slot(m, slot as int, v), span, cs) {
                    Ok((Ok(Some(w)), m1)) => lemma_pass_row_tallies(p, b, n, k + 1, c, w, m1, span, cs),
                    _ => {},
                }
            },
            IndexedLiveSerialStage::WhereBlock { slot, body, value } => if slot < m.slots.len() {
                match spec_stage_body(p, b, body, set_slot(m, slot as int, v), span, cs) {
                    Ok((None, m1)) => match spec_select_row(p, b, slot, value, m1, span, cs) {
                        Ok((Ok(Some(w)), m2)) => lemma_pass_row_tallies(p, b, n, k + 1, c, w, m2, span, cs),
                        _ => {},
                    },
                    _ => {},
                }
            },
            IndexedLiveSerialStage::MapItems { slot, value, flat } => if slot < m.slots.len() {
                match ev_expr(p, b, value, set_slot(m, slot as int, v), span) {
                    Ok((Flow::Next(y), m1)) => if slot < m1.slots.len() {
                        let m2 = set_slot(m1, slot as int, ValueModel::Unit);
                        if flat {
                            match flat_rows(y, span) {
                                Ok(rows) => lemma_pass_rows_tallies(p, b, n, k + 1, c, rows, 0, m2, span, cs),
                                _ => {},
                            }
                        } else {
                            lemma_pass_row_tallies(p, b, n, k + 1, c, y, m2, span, cs);
                        }
                    },
                    _ => {},
                }
            },
            IndexedLiveSerialStage::MapBlock { slot, body, value, flat } => if slot < m.slots.len() {
                match spec_stage_body(p, b, body, set_slot(m, slot as int, v), span, cs) {
                    Ok((None, m1)) => match ev_expr(p, b, value, m1, span) {
                        Ok((Flow::Next(y), m2)) => if slot < m2.slots.len() {
                            let m3 = set_slot(m2, slot as int, ValueModel::Unit);
                            if flat {
                                match flat_rows(y, span) {
                                    Ok(rows) => lemma_pass_rows_tallies(p, b, n, k + 1, c, rows, 0, m3, span, cs),
                                    _ => {},
                                }
                            } else {
                                lemma_pass_row_tallies(p, b, n, k + 1, c, y, m3, span, cs);
                            }
                        },
                        _ => {},
                    },
                    _ => {},
                }
            },
            IndexedLiveSerialStage::Drop { count_expr, count, seen } => if seen >= count {
                lemma_pass_row_tallies(p, b, n, k + 1, c, v, m, span, cs);
            },
            IndexedLiveSerialStage::Enumerate { index } => {
                let next = if index < usize::MAX { (index + 1) as usize } else { index };
                let row = ValueModel::Record(seq![("index"@, ValueModel::Int(index as i64)), ("value"@, v)]);
                lemma_pass_row_tallies(p, b, n, k + 1, with_stage(c, k, IndexedLiveSerialStage::Enumerate { index: next }), row, m, span, cs);
            },
            _ => {},
        }
    }
}

proof fn lemma_pass_rows_tallies(
    p: FullProgram, b: nat, n: nat, k: nat, c: SerialCore, rows: Seq<ValueModel>, i: nat, m: Machine, span: Span, cs: Span,
)
    requires
        tallies_ok(c),
    ensures
        keeps_tallies(c, pass_rows(p, b, n, k, c, rows, i, m, span, cs)),
    decreases n - k, rows.len() - i + 1,
{
    if i < rows.len() {
        lemma_pass_row_tallies(p, b, n, k, c, rows[i as int], m, span, cs);
        match pass_row(p, b, n, k, c, rows[i as int], m, span, cs) {
            Ok((c1, None, m1)) => lemma_pass_rows_tallies(p, b, n, k, c1, rows, i + 1, m1, span, cs),
            _ => {},
        }
    }
}

proof fn lemma_drain_tallies(p: FullProgram, b: nat, n: nat, c: SerialCore, src: Seq<ValueModel>, m: Machine, span: Span, cs: Span)
    requires
        tallies_ok(c),
    ensures
        keeps_tallies(c, serial_drain(p, b, n, c, src, m, span, cs)),
    decreases src.len(),
{
    if !halted(c) && src.len() > 0 {
        let c0 = SerialCore { source_index: c.source_index + 1, ..c };
        lemma_pass_row_tallies(p, b, n, 0, c0, src[0], m, span, cs);
        match pass_row(p, b, n, 0, c0, src[0], m, span, cs) {
            Ok((c1, None, m1)) => lemma_drain_tallies(p, b, n, c1, src.drop_first(), m1, span, cs),
            _ => {},
        }
    }
}

/// A pipeline hands out at most as many rows as its limit: when its last
/// stage is `take`, the count that `take` was given, however many items
/// its source delivers.
pub proof fn lemma_take_bounds_output(
    p: FullProgram, b: nat, stages: Seq<IndexedLiveSerialStage>, src: Seq<ValueModel>, m: Machine, span: Span, cs: Span,
)
    ensures
        serial_drain(p, b, stages.len(), start_core(stages), src, m, span, cs) matches Ok((c, _, _))
            ==> c.ready.len() <= stage_limit(stages),
{
    lemma_drain_tallies(p, b, stages.len(), start_core(stages), src, m, span, cs);
}

/// A pipeline that has halted, with no ready row left, hands out nothing
/// more and pulls nothing more from its source, however much is left.
pub proof fn lemma_halted_pulls_nothing(
    p: FullProgram, b: nat, n: nat, c: SerialCore, src: Seq<ValueModel>, m: Machine, span: Span, cs: Span,
)
    requires
        halted(c),
        c.ready.len() == 0,
    ensures
        serial_next(p, b, n, c, src, m, span, cs) == Ok::<(SerialCore, Seq<ValueModel>, Result<Option<ValueModel>, ValueModel>, Machine), ErrorModel>(
            (c, src, Ok(None), m)),
{
}

} // verus!
