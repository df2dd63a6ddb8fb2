//! Laws of a live serial pipeline stage by stage: what each stage does
//! with the row that reaches it, and what becomes of a row past the last one.
use vstd::prelude::*;
use crate::value::{ValueModel, Span};
use crate::semantics::{Machine, StmtEnd, Flow, set_slot, ev_expr};
use crate::pipeline::{SerialCore, halted, pass_row, ev_block};
use crate::direct::ev_bool;
use crate::serial::IndexedLiveSerialStage;
use crate::ir::FullProgram;

verus! {

/// A `tee` stage whose body ends normally (or with `continue`) hands the
/// very row it got to the next stage: passing a row through stage `k`, a
/// tee, is passing the same row through stage `k + 1`, in the slots the
/// body left, with the tee's own slot cleared.
pub proof fn lemma_tee_hands_on_its_row(
    p: FullProgram, b: nat, n: nat, k: nat, c: SerialCore, v: ValueModel, m: Machine, span: Span, cs: Span,
    slot: usize, body: u32,
)
    requires
        k < n,
        k < c.stages.len(),
        !halted(c),
        c.stages[k as int] == (IndexedLiveSerialStage::Tee { slot, body }),
        slot < m.slots.len(),
        ev_block(p, b, body, set_slot(m, slot as int, v), cs) matches Ok((end, m1))
            && (end == StmtEnd::Done || end == StmtEnd::Continue)
            && slot < m1.slots.len(),
    ensures
        pass_row(p, b, n, k, c, v, m, span, cs) == pass_row(p, b, n, k + 1, c, v,
            set_slot(ev_block(p, b, body, set_slot(m, slot as int, v), cs)->Ok_0.1, slot as int, ValueModel::Unit), span, cs),
{
}

/// A halted pipeline takes no row, and past the last stage a row is handed
/// out: added after the ready rows and counted.
pub proof fn lemma_rows_past_the_stages_are_handed_out(
    p: FullProgram, b: nat, n: nat, k: nat, c: SerialCore, v: ValueModel, m: Machine, span: Span, cs: Span,
)
    ensures
        halted(c) ==> pass_row(p, b, n, k, c, v, m, span, cs) == Ok::<(SerialCore, Option<ValueModel>, Machine), crate::value::ErrorModel>((c, None, m)),
        !halted(c) && k >= n ==> (pass_row(p, b, n, k, c, v, m, span, cs) matches Ok((c2, None, m2))
            && m2 == m && c2.ready == c.ready.push(v) && c2.emitted == c.emitted + 1 && c2.stages == c.stages
            && c2.limit == c.limit && c2.outcome == c.outcome && c2.stopped == c.stopped),
{
}

/// A `where` stage hands on the row its predicate keeps, as the slot holds
/// it once the predicate ran, and drops a row the predicate rejects,
/// leaving the state as it was.
pub proof fn lemma_where_keeps_or_drops_the_row(
    p: FullProgram, b: nat, n: nat, k: nat, c: SerialCore, v: ValueModel, m: Machine, span: Span, cs: Span,
    slot: usize, predicate: u32,
)
    requires
        k < n,
        k < c.stages.len(),
        !halted(c),
        c.stages[k as int] == (IndexedLiveSerialStage::Where { slot, predicate }),
        slot < m.slots.len(),
        ev_bool(p, b, predicate, set_slot(m, slot as int, v), span) matches Ok((Ok(_), m1)) && slot < m1.slots.len(),
    ensures
        ({
            let (r, m1) = ev_bool(p, b, predicate, set_slot(m, slot as int, v), span)->Ok_0;
            let m2 = set_slot(m1, slot as int, ValueModel::Unit);
            if r->Ok_0 {
                pass_row(p, b, n, k, c, v, m, span, cs) == pass_row(p, b, n, k + 1, c, m1.slots[slot as int], m2, span, cs)
            } else {
                pass_row(p, b, n, k, c, v, m, span, cs)
                    == Ok::<(SerialCore, Option<ValueModel>, Machine), crate::value::ErrorModel>((c, None, m2))
            }
        }),
{
}

/// A `map` stage hands on what its expression makes of the row.
pub proof fn lemma_map_hands_on_the_mapped_row(
    p: FullProgram, b: nat, n: nat, k: nat, c: SerialCore, v: ValueModel, m: Machine, span: Span, cs: Span,
    slot: usize, value: u32,
)
    requires
        k < n,
        k < c.stages.len(),
        !halted(c),
        c.stages[k as int] == (IndexedLiveSerialStage::MapItems { slot, value, flat: false }),
        slot < m.slots.len(),
        ev_expr(p, b, value, set_slot(m, slot as int, v), span) matches Ok((Flow::Next(_), m1)) && slot < m1.slots.len(),
    ensures
        ({
            let (f, m1) = ev_expr(p, b, value, set_slot(m, slot as int, v), span)->Ok_0;
            pass_row(p, b, n, k, c, v, m, span, cs)
                == pass_row(p, b, n, k + 1, c, f->Next_0, set_slot(m1, slot as int, ValueModel::Unit), span, cs)
        }),
{
}

/// `collect` and `take` hand the row out, `take` stopping the pipeline
/// once its count is reached; `count` only counts it; `first` settles on
/// the row as a success and stops; `enumerate` hands on a record of the
/// row's position and the row; `drop` drops the rows it still has to skip
/// and hands the others on unchanged.
pub proof fn lemma_terminal_and_counting_stages(
    p: FullProgram, b: nat, n: nat, k: nat, c: SerialCore, v: ValueModel, m: Machine, span: Span, cs: Span,
)
    requires
        k < n,
        k < c.stages.len(),
        !halted(c),
    ensures
        c.stages[k as int] == IndexedLiveSerialStage::Collect ==> (pass_row(p, b, n, k, c, v, m, span, cs) matches Ok((c2, None, m2))
            && m2 == m && c2.ready == c.ready.push(v) && c2.emitted == c.emitted + 1 && !c2.stopped),
        c.stages[k as int] is Take ==> (pass_row(p, b, n, k, c, v, m, span, cs) matches Ok((c2, None, m2))
            && m2 == m && c2.ready == c.ready.push(v) && c2.emitted == c.emitted + 1
            && (c2.stopped <==> c.emitted + 1 >= c.limit)),
        c.stages[k as int] == IndexedLiveSerialStage::Count ==> (pass_row(p, b, n, k, c, v, m, span, cs) matches Ok((c2, None, m2))
            && m2 == m && c2.ready == c.ready && c2.emitted == c.emitted + 1),
        c.stages[k as int] == IndexedLiveSerialStage::First ==> (pass_row(p, b, n, k, c, v, m, span, cs) matches Ok((c2, None, m2))
            && m2 == m && c2.ready == c.ready && c2.outcome == Some(ValueModel::ResultOk(Box::new(v))) && c2.stopped),
        c.stages[k as int] matches IndexedLiveSerialStage::Enumerate { index } ==> pass_row(p, b, n, k, c, v, m, span, cs)
            == pass_row(p, b, n, k + 1,
                SerialCore { stages: c.stages.update(k as int, IndexedLiveSerialStage::Enumerate {
                    index: if index < usize::MAX { (index + 1) as usize } else { index } }), ..c },
                ValueModel::Record(seq![("index"@, ValueModel::Int(index as i64)), ("value"@, v)]), m, span, cs),
        c.stages[k as int] matches IndexedLiveSerialStage::Drop { count_expr, count, seen } ==> if seen < count {
            (pass_row(p, b, n, k, c, v, m, span, cs) matches Ok((c2, None, m2)) && m2 == m && c2.ready == c.ready
                && c2.emitted == c.emitted
                && c2.stages[k as int] == (IndexedLiveSerialStage::Drop { count_expr, count, seen: (seen + 1) as usize }))
        } else {
            pass_row(p, b, n, k, c, v, m, span, cs) == pass_row(p, b, n, k + 1, c, v, m, span, cs)
        },
{
}

/// An `any` stage settles on `true`, and stops the pipeline, at the first
/// row its predicate keeps; an `all` stage settles on `false` at the first
/// row its predicate rejects; any other row is taken and leaves the
/// pipeline as it was.
pub proof fn lemma_any_all_settle(
    p: FullProgram, b: nat, n: nat, k: nat, c: SerialCore, v: ValueModel, m: Machine, span: Span, cs: Span,
    slot: usize, predicate: u32, all: bool,
)
    requires
        k < n,
        k < c.stages.len(),
        !halted(c),
        c.stages[k as int] == (IndexedLiveSerialStage::Any { slot, predicate, all }),
        slot < m.slots.len(),
        ev_bool(p, b, predicate, set_slot(m, slot as int, v), span) matches Ok((Ok(_), m1)) && slot < m1.slots.len(),
    ensures
        ({
            let keep = ev_bool(p, b, predicate, set_slot(m, slot as int, v), span)->Ok_0.0->Ok_0;
            pass_row(p, b, n, k, c, v, m, span, cs) matches Ok((c2, None, _)) && if keep != all {
                &&& c2.outcome == Some(ValueModel::Bool(!all))
                &&& c2.stopped
                &&& c2.ready == c.ready
                &&& c2.emitted == c.emitted
            } else {
                c2 == c
            }
        }),
{
}

} // verus!
