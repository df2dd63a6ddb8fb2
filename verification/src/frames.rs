//! Call frames kept on the heap rather than the native stack: a frame's slots
//! and scopes, its pending work and registered defers, the state a suspended
//! stream producer keeps between pulls, and the bounded pools frames reuse
//! their vectors from.
use vstd::prelude::*;
use crate::value::{Span, Value, ValueModel, model_list};
use crate::ir::{FullProgram, LoweredFunctionKey, LoweredFunctionKind};
use crate::interp::StmtFlow;
use crate::semantics::StmtEnd;
use crate::continuation::{ExprWork, ExprWorkModel, expr_work_model};

verus! {

/// A unit of pending work on a frame's stack.
pub enum FrameWork {
    /// A block's statements from `next` on, the defers it has registered,
    /// and the bound its statements' instructions lie below.
    Statements { statements: Vec<u32>, next: usize, defers: Vec<u32>, bound: usize },
    /// A `for` loop, at instruction `instruction`, over `items` from `index`
    /// on: each item goes into `slot` and the statements `body` run.
    ForItems { instruction: u32, slot: usize, body: Vec<u32>, items: Vec<Value>, index: usize },
    /// A block or a loop has ended with a flow that the work below takes.
    Finish(StmtFlow),
    /// A statement's expression in progress, and what the statement does
    /// with its value.
    Expr { work: ExprWork, after: StatementContinuation },
}

/// What a statement does with the value of its expression.
pub enum StatementContinuation {
    /// Store it in a slot.
    Store(usize),
    /// Drop it.
    Discard,
    /// Return it from the function.
    Return,
    /// Hand it to whoever pulls the stream.
    Yield,
    /// Take it as the condition of `if` statement `instruction`.
    If { instruction: u32, then_block: Vec<u32>, else_block: Option<Vec<u32>> },
    /// Loop over it as the items of `for` statement `instruction`.
    For { instruction: u32, slot: usize, body: Vec<u32> },
}

/// The meaning of a statement continuation.
pub enum StmtCont {
    Store(nat),
    Discard,
    Return,
    Yield,
    If { s: u32, then_block: Seq<u32>, else_block: Option<Seq<u32>> },
    For { s: u32, slot: nat, body: Seq<u32> },
}

impl View for StatementContinuation {
    type V = StmtCont;

    open spec fn view(&self) -> StmtCont {
        match self {
            StatementContinuation::Store(slot) => StmtCont::Store(*slot as nat),
            StatementContinuation::Discard => StmtCont::Discard,
            StatementContinuation::Return => StmtCont::Return,
            StatementContinuation::Yield => StmtCont::Yield,
            StatementContinuation::If { instruction, then_block, else_block } => StmtCont::If {
                s: *instruction,
                then_block: then_block@,
                else_block: match else_block {
                    Some(b) => Some(b@),
                    None => None,
                },
            },
            StatementContinuation::For { instruction, slot, body } => StmtCont::For { s: *instruction, slot: *slot as nat, body: body@ },
        }
    }
}

/// The meaning of a unit of work.
pub enum WorkModel {
    Block { ss: Seq<u32>, k: nat, defers: Seq<u32>, bound: nat },
    Loop { s: u32, slot: nat, body: Seq<u32>, items: Seq<ValueModel>, k: nat },
    Finish(StmtEnd),
    Eval { work: ExprWorkModel, after: StmtCont },
}

impl View for FrameWork {
    type V = WorkModel;

    open spec fn view(&self) -> WorkModel {
        match self {
            FrameWork::Statements { statements, next, defers, bound } =>
                WorkModel::Block { ss: statements@, k: *next as nat, defers: defers@, bound: *bound as nat },
            FrameWork::ForItems { instruction, slot, body, items, index } =>
                WorkModel::Loop { s: *instruction, slot: *slot as nat, body: body@, items: model_list(items@), k: *index as nat },
            FrameWork::Finish(flow) => WorkModel::Finish(flow@),
            FrameWork::Expr { work, after } => WorkModel::Eval { work: expr_work_model(*work), after: after@ },
        }
    }
}

/// The meaning of a work stack, its next unit last.
pub open spec fn work_view(w: Seq<FrameWork>) -> Seq<WorkModel> {
    Seq::new(w.len(), |i: int| w[i]@)
}

/// The largest number of vectors each pool keeps.
pub const POOL_CAP: usize = 32;

/// Pools of the vectors a frame allocates on every call, and how many
/// statement lists were handed out fresh and how many reused.
pub struct FrameScratch {
    pub work: Vec<Vec<FrameWork>>,
    pub slot_scopes: Vec<Vec<u64>>,
    pub statements: Vec<Vec<u32>>,
    pub fresh_statements: usize,
    pub reused_statements: usize,
}

/// How many statement lists a work stack holds.
pub open spec fn statement_lists(w: Seq<FrameWork>) -> nat
    decreases w.len(),
{
    if w.len() == 0 {
        0
    } else {
        (if w[0] is Statements { 1nat } else { 0nat }) + statement_lists(w.drop_first())
    }
}

/// The size of a pool of `held` vectors once `more` are offered to it,
/// each kept while it holds fewer than `POOL_CAP`.
pub open spec fn pooled(held: nat, more: nat) -> nat {
    if held >= POOL_CAP { held } else if held + more <= POOL_CAP { held + more } else { POOL_CAP as nat }
}

impl FrameScratch {
    /// The pools hold at most `POOL_CAP` vectors each, all of them empty.
    pub open spec fn wf(&self) -> bool {
        &&& self.work@.len() <= POOL_CAP
        &&& self.slot_scopes@.len() <= POOL_CAP
        &&& self.statements@.len() <= POOL_CAP
        &&& forall|i: int| 0 <= i < self.work@.len() ==> (#[trigger] self.work@[i])@.len() == 0
        &&& forall|i: int| 0 <= i < self.slot_scopes@.len() ==> (#[trigger] self.slot_scopes@[i])@.len() == 0
        &&& forall|i: int| 0 <= i < self.statements@.len() ==> (#[trigger] self.statements@[i])@.len() == 0
    }

    /// Empty pools.
    pub fn new() -> (s: FrameScratch)
        ensures
            s.wf(),
            s.work@.len() == 0,
            s.slot_scopes@.len() == 0,
            s.statements@.len() == 0,
            s.fresh_statements == 0,
            s.reused_statements == 0,
    {
        FrameScratch { work: Vec::new(), slot_scopes: Vec::new(), statements: Vec::new(), fresh_statements: 0, reused_statements: 0 }
    }

    /// An empty work stack, from the pool when it has one.
    pub fn take_work(&mut self) -> (r: Vec<FrameWork>)
        requires
            old(self).wf(),
        ensures
            final(self).wf(),
            r@.len() == 0,
            final(self).work@ == (if old(self).work@.len() > 0 { old(self).work@.drop_last() } else { old(self).work@ }),
            final(self).slot_scopes@ == old(self).slot_scopes@,
            final(self).statements@ == old(self).statements@,
            final(self).fresh_statements == old(self).fresh_statements,
            final(self).reused_statements == old(self).reused_statements,
    {
        match self.work.pop() {
            Some(w) => w,
            None => Vec::new(),
        }
    }

    /// A slot-scope list of `len` copies of `fill`, from the pool when it has
    /// one.
    pub fn take_slot_scopes(&mut self, len: usize, fill: u64) -> (r: Vec<u64>)
        requires
            old(self).wf(),
        ensures
            final(self).wf(),
            r@ == Seq::new(len as nat, |i: int| fill),
            final(self).slot_scopes@ == (if old(self).slot_scopes@.len() > 0 {
                old(self).slot_scopes@.drop_last()
            } else {
                old(self).slot_scopes@
            }),
            final(self).work@ == old(self).work@,
            final(self).statements@ == old(self).statements@,
            final(self).fresh_statements == old(self).fresh_statements,
            final(self).reused_statements == old(self).reused_statements,
    {
        let mut scopes = match self.slot_scopes.pop() {
            Some(s) => s,
            None => Vec::new(),
        };
        scopes.clear();
        let mut i: usize = 0;
        while i < len
            invariant
                i <= len,
                scopes@ == Seq::new(i as nat, |k: int| fill),
            decreases len - i,
        {
            scopes.push(fill);
            i = i + 1;
            assert(scopes@ =~= Seq::new(i as nat, |k: int| fill));
        }
        scopes
    }

    /// An empty statement list, counting whether it came from the pool.
    pub fn take_statements(&mut self) -> (r: Vec<u32>)
        requires
            old(self).wf(),
            old(self).fresh_statements < usize::MAX,
            old(self).reused_statements < usize::MAX,
        ensures
            final(self).wf(),
            r@.len() == 0,
            old(self).statements@.len() > 0 ==> final(self).statements@ == old(self).statements@.drop_last()
                && final(self).reused_statements == old(self).reused_statements + 1
                && final(self).fresh_statements == old(self).fresh_statements,
            old(self).statements@.len() == 0 ==> final(self).statements@ == old(self).statements@
                && final(self).fresh_statements == old(self).fresh_statements + 1
                && final(self).reused_statements == old(self).reused_statements,
            final(self).work@ == old(self).work@,
            final(self).slot_scopes@ == old(self).slot_scopes@,
    {
        match self.statements.pop() {
            Some(statements) => {
                self.reused_statements = self.reused_statements + 1;
                statements
            },
            None => {
                self.fresh_statements = self.fresh_statements + 1;
                Vec::new()
            },
        }
    }

    /// Returns a statement list whose entries have all run: it is kept,
    /// emptied, unless the pool is full.
    pub fn recycle_statements(&mut self, statements: Vec<u32>)
        requires
            old(self).wf(),
        ensures
            final(self).wf(),
            final(self).statements@.len() == (if old(self).statements@.len() < POOL_CAP {
                old(self).statements@.len() + 1int
            } else {
                old(self).statements@.len() as int
            }),
            final(self).work@ == old(self).work@,
            final(self).slot_scopes@ == old(self).slot_scopes@,
            final(self).fresh_statements == old(self).fresh_statements,
            final(self).reused_statements == old(self).reused_statements,
    {
        if self.statements.len() >= POOL_CAP {
            return;
        }
        let mut statements = statements;
        statements.clear();
        self.statements.push(statements);
    }

    /// Returns a finished frame's vectors to the pools, emptied, as far as
    /// each pool has room; the frame is left with no work and no slot scopes.
    pub fn recycle(&mut self, call: &mut CallFrame)
        requires
            old(self).wf(),
        ensures
            final(self).wf(),
            final(call).work@.len() == 0,
            final(call).slot_scopes@.len() == 0,
            final(call).slots == old(call).slots,
            final(call).defers == old(call).defers,
            final(call).block_scopes == old(call).block_scopes,
            final(call).scope_id == old(call).scope_id,
            final(self).statements@.take(old(self).statements@.len() as int) == old(self).statements@,
            final(self).statements@.len() == pooled(old(self).statements@.len(), statement_lists(old(call).work@)),
            final(self).work@.len() == (if old(self).work@.len() < POOL_CAP {
                old(self).work@.len() + 1int
            } else {
                old(self).work@.len() as int
            }),
            final(self).slot_scopes@.len() == (if old(self).slot_scopes@.len() < POOL_CAP {
                old(self).slot_scopes@.len() + 1int
            } else {
                old(self).slot_scopes@.len() as int
            }),
            final(self).fresh_statements == old(self).fresh_statements,
            final(self).reused_statements == old(self).reused_statements,
    {
        let ghost w0 = call.work@;
        assert(w0.skip(w0.len() as int) =~= Seq::<FrameWork>::empty());
        while call.work.len() > 0
            invariant
                self.wf(),
                call.work@ == w0.take(call.work@.len() as int),
                call.work@.len() <= w0.len(),
                self.statements@.take(old(self).statements@.len() as int) == old(self).statements@,
                self.statements@.len() == pooled(old(self).statements@.len(), statement_lists(w0.skip(call.work@.len() as int))),
                self.work@ == old(self).work@,
                self.slot_scopes@ == old(self).slot_scopes@,
                self.fresh_statements == old(self).fresh_statements,
                self.reused_statements == old(self).reused_statements,
                call.slots == old(call).slots,
                call.slot_scopes == old(call).slot_scopes,
                call.defers == old(call).defers,
                call.block_scopes == old(call).block_scopes,
                call.scope_id == old(call).scope_id,
            decreases call.work@.len(),
        {
            let ghost n = call.work@.len();
            assert(w0.skip(n - 1).drop_first() =~= w0.skip(n as int));
            assert(w0.skip(n - 1)[0] == w0[n - 1]);
            assert(w0.take(n - 1) =~= w0.take(n as int).drop_last());
            let ghost before = self.statements@;
            let work = call.work.pop();
            match work {
                Some(FrameWork::Statements { statements, .. }) => {
                    if self.statements.len() < POOL_CAP {
                        let mut statements = statements;
                        statements.clear();
                        self.statements.push(statements);
                        assert(self.statements@.take(old(self).statements@.len() as int)
                            =~= before.take(old(self).statements@.len() as int));
                    }
                },
                _ => {},
            }
        }
        let mut work: Vec<FrameWork> = Vec::new();
        std::mem::swap(&mut work, &mut call.work);
        if self.work.len() < POOL_CAP {
            self.work.push(work);
        }
        call.slot_scopes.clear();
        let mut scopes: Vec<u64> = Vec::new();
        std::mem::swap(&mut scopes, &mut call.slot_scopes);
        if self.slot_scopes.len() < POOL_CAP {
            self.slot_scopes.push(scopes);
        }
    }
}

/// A call frame: which function runs, its slots and their scopes, its
/// pending work, registered defers and open block scopes.
pub struct CallFrame {
    pub function: LoweredFunctionKey,
    pub kind: LoweredFunctionKind,
    /// Whether the frame is a stream producer, whose body ends by falling off
    /// its last statement rather than by returning.
    pub producer: bool,
    pub scope_id: u64,
    pub slots: Vec<Value>,
    pub slot_scopes: Vec<u64>,
    pub call_span: Span,
    pub definition_span: Span,
    pub work: Vec<FrameWork>,
    pub defers: Vec<u32>,
    pub block_scopes: Vec<u64>,
}

/// A suspended producer frame: what it still has to do and everything its
/// body has bound.
pub struct ProducerFrameState {
    pub work: Vec<FrameWork>,
    pub slots: Vec<Value>,
    pub slot_scopes: Vec<u64>,
    pub defers: Vec<u32>,
    pub block_scopes: Vec<u64>,
    pub scope_id: u64,
}

/// Whether `w` is the work of a body that has not started: its statements,
/// none run yet, below `bound`.
pub open spec fn fresh_body(w: Seq<FrameWork>, statements: Seq<u32>, bound: nat) -> bool {
    work_view(w) == seq![WorkModel::Block { ss: statements, k: 0, defers: Seq::empty(), bound }]
}

/// A work unit cut short: a block with no statement left to run, which
/// still runs its defers; a loop with no item left; a pending flow or an
/// expression in progress that ends normally.
pub open spec fn cut_short(w: WorkModel) -> WorkModel {
    match w {
        WorkModel::Block { ss, defers, bound, .. } => WorkModel::Block { ss, k: ss.len(), defers, bound },
        WorkModel::Loop { s, slot, body, items, .. } => WorkModel::Loop { s, slot, body, items, k: items.len() },
        WorkModel::Finish(_) => WorkModel::Finish(StmtEnd::Done),
        WorkModel::Eval { .. } => WorkModel::Finish(StmtEnd::Done),
    }
}

/// Cuts a work stack short: every block keeps only its registered defers,
/// every loop its end; run on, the stack only runs those defers, innermost
/// block first.
pub fn cut_work_short(work: &mut Vec<FrameWork>)
    ensures
        work_view(final(work)@) == Seq::new(old(work)@.len(), |i: int| cut_short(work_view(old(work)@)[i])),
{
    let ghost before = work_view(work@);
    let mut old_work: Vec<FrameWork> = Vec::new();
    std::mem::swap(&mut old_work, work);
    let mut kept: Vec<FrameWork> = Vec::new();
    let n = old_work.len();
    let mut rest = old_work;
    assert(work_view(rest@) =~= before);
    while rest.len() > 0
        invariant
            n == before.len(),
            rest@.len() + kept@.len() == n,
            work_view(kept@) == Seq::new(kept@.len(), |k: int| cut_short(before[k])),
            work_view(rest@) == before.skip(kept@.len() as int),
        decreases rest@.len(),
    {
        let ghost at = kept@.len();
        let ghost rv = work_view(rest@);
        let unit = rest.remove(0);
        assert(work_view(rest@) =~= rv.drop_first());
        assert(unit@ == rv[0]);
        assert(rv[0] == before[at as int]);
        let cut = match unit {
            FrameWork::Statements { statements, defers, bound, .. } => {
                let next = statements.len();
                FrameWork::Statements { statements, next, defers, bound }
            },
            FrameWork::ForItems { instruction, slot, body, items, .. } => {
                let index = items.len();
                FrameWork::ForItems { instruction, slot, body, items, index }
            },
            FrameWork::Finish(_) => FrameWork::Finish(StmtFlow::Done),
            FrameWork::Expr { .. } => FrameWork::Finish(StmtFlow::Done),
        };
        assert(cut@ == cut_short(before[at as int]));
        let ghost prev = work_view(kept@);
        kept.push(cut);
        assert(work_view(kept@) =~= prev.push(cut@));
        assert(work_view(kept@) =~= Seq::new(kept@.len(), |k: int| cut_short(before[k])));
        assert(before.skip(at as int).drop_first() =~= before.skip(kept@.len() as int));
    }
    assert(kept@.len() == n);
    *work = kept;
}

impl ProducerFrameState {
    /// The state of a producer whose body has not run yet.
    pub fn begin_body(statements: Vec<u32>, slots: Vec<Value>, bound: usize) -> (s: ProducerFrameState)
        ensures
            fresh_body(s.work@, statements@, bound as nat),
            s.slots@ == slots@,
            s.slot_scopes@.len() == 0,
            s.defers@.len() == 0,
            s.block_scopes@.len() == 0,
            s.scope_id == 0,
    {
        let ghost body = statements@;
        let mut work: Vec<FrameWork> = Vec::new();
        work.push(FrameWork::Statements { statements, next: 0, defers: Vec::new(), bound });
        assert(work_view(work@) =~= seq![WorkModel::Block { ss: body, k: 0, defers: Seq::empty(), bound: bound as nat }]);
        ProducerFrameState {
            work,
            slots,
            slot_scopes: Vec::new(),
            defers: Vec::new(),
            block_scopes: Vec::new(),
            scope_id: 0,
        }
    }

    /// The scopes the body has open: its call scope, then its live blocks,
    /// outermost first.
    pub fn open_scopes(&self) -> (r: Vec<u64>)
        ensures
            r@ == seq![self.scope_id] + self.block_scopes@,
    {
        let mut scopes: Vec<u64> = Vec::new();
        scopes.push(self.scope_id);
        let mut i: usize = 0;
        while i < self.block_scopes.len()
            invariant
                i <= self.block_scopes@.len(),
                scopes@ == seq![self.scope_id] + self.block_scopes@.take(i as int),
            decreases self.block_scopes@.len() - i,
        {
            scopes.push(self.block_scopes[i]);
            i = i + 1;
            assert(scopes@ =~= seq![self.scope_id] + self.block_scopes@.take(i as int));
        }
        assert(self.block_scopes@.take(self.block_scopes@.len() as int) =~= self.block_scopes@);
        scopes
    }

    /// Enters the body's call scope: every slot belongs to it.
    pub fn start(&mut self, scope_id: u64)
        ensures
            final(self).scope_id == scope_id,
            final(self).slot_scopes@ == Seq::new(old(self).slots@.len(), |i: int| scope_id),
            final(self).slots == old(self).slots,
            final(self).work == old(self).work,
            final(self).defers == old(self).defers,
            final(self).block_scopes == old(self).block_scopes,
    {
        self.scope_id = scope_id;
        let n = self.slots.len();
        let mut scopes: Vec<u64> = Vec::new();
        let mut i: usize = 0;
        while i < n
            invariant
                i <= n,
                scopes@ == Seq::new(i as nat, |k: int| scope_id),
            decreases n - i,
        {
            scopes.push(scope_id);
            i = i + 1;
            assert(scopes@ =~= Seq::new(i as nat, |k: int| scope_id));
        }
        self.slot_scopes = scopes;
    }
}

/// The defers the blocks of a work stack have registered, bottom block
/// first and each block's in the order it registered them.
pub open spec fn registered_defers(w: Seq<WorkModel>) -> Seq<u32>
    decreases w.len(),
{
    if w.len() == 0 {
        Seq::empty()
    } else {
        registered_defers(w.drop_last()) + match w.last() {
            WorkModel::Block { defers, .. } => defers,
            _ => Seq::empty(),
        }
    }
}

impl CallFrame {
    /// Discards the body's remaining work: the frame is left with one empty
    /// block holding every defer its blocks registered, bottom block first,
    /// so that, run on, it only runs those, innermost first, and completes
    /// the call.
    pub fn discard_body(&mut self)
        ensures
            work_view(final(self).work@) == seq![WorkModel::Block {
                ss: Seq::empty(), k: 0, defers: registered_defers(work_view(old(self).work@)), bound: usize::MAX as nat }],
            final(self).defers == old(self).defers,
            final(self).slots == old(self).slots,
            final(self).slot_scopes == old(self).slot_scopes,
            final(self).block_scopes == old(self).block_scopes,
            final(self).scope_id == old(self).scope_id,
    {
        let ghost w0 = work_view(self.work@);
        let mut collected: Vec<u32> = Vec::new();
        let mut i: usize = 0;
        assert(w0.take(0) =~= Seq::<WorkModel>::empty());
        while i < self.work.len()
            invariant
                i <= self.work@.len(),
                w0 == work_view(self.work@),
                collected@ == registered_defers(w0.take(i as int)),
            decreases self.work@.len() - i,
        {
            assert(w0.take(i + 1).drop_last() =~= w0.take(i as int));
            assert(w0.take(i + 1).last() == w0[i as int]);
            match &self.work[i] {
                FrameWork::Statements { defers, .. } => {
                    let ghost before = collected@;
                    let mut j: usize = 0;
                    while j < defers.len()
                        invariant
                            j <= defers@.len(),
                            collected@ == before + defers@.take(j as int),
                        decreases defers@.len() - j,
                    {
                        collected.push(defers[j]);
                        j = j + 1;
                        assert(collected@ =~= before + defers@.take(j as int));
                    }
                    assert(defers@.take(j as int) =~= defers@);
                },
                _ => {
                    assert(collected@ =~= collected@ + Seq::<u32>::empty());
                },
            }
            i = i + 1;
        }
        assert(w0.take(i as int) =~= w0);
        let mut work: Vec<FrameWork> = Vec::new();
        work.push(FrameWork::Statements { statements: Vec::new(), next: 0, defers: collected, bound: usize::MAX });
        assert(work_view(work@) =~= seq![WorkModel::Block {
            ss: Seq::empty(), k: 0, defers: registered_defers(w0), bound: usize::MAX as nat }]);
        self.work = work;
    }

    /// The state to suspend this frame as.
    pub fn into_state(self) -> (s: ProducerFrameState)
        ensures
            s.work == self.work,
            s.slots == self.slots,
            s.slot_scopes == self.slot_scopes,
            s.defers == self.defers,
            s.block_scopes == self.block_scopes,
            s.scope_id == self.scope_id,
    {
        ProducerFrameState {
            work: self.work,
            slots: self.slots,
            slot_scopes: self.slot_scopes,
            defers: self.defers,
            block_scopes: self.block_scopes,
            scope_id: self.scope_id,
        }
    }

    /// Rebuilds the frame of producer `function` of `kind` from the state a
    /// previous pull suspended; `None` when the program has no such function.
    pub fn from_state(
        program: &FullProgram,
        function: LoweredFunctionKey,
        kind: LoweredFunctionKind,
        call_span: Span,
        definition_span: Span,
        state: ProducerFrameState,
    ) -> (r: Option<CallFrame>)
        ensures
            match crate::semantics::function_index(*program, function.name.id, kind) {
                None => r is None,
                Some(_) => r matches Some(f) && f.function == function && f.kind == kind && f.producer
                    && f.call_span == call_span && f.definition_span == definition_span
                    && f.work == state.work && f.slots == state.slots && f.slot_scopes == state.slot_scopes
                    && f.defers == state.defers && f.block_scopes == state.block_scopes
                    && f.scope_id == state.scope_id,
            },
    {
        let mut i: usize = 0;
        while i < program.functions.len()
            invariant
                i <= program.functions@.len(),
                crate::semantics::function_index(*program, function.name.id, kind)
                    == crate::semantics::function_from(*program, function.name.id, kind, i as nat),
            decreases program.functions@.len() - i,
        {
            if program.functions[i].key.name.id == function.name.id && program.functions[i].kind == kind {
                return Some(CallFrame {
                    function,
                    kind,
                    producer: true,
                    scope_id: state.scope_id,
                    slots: state.slots,
                    slot_scopes: state.slot_scopes,
                    call_span,
                    definition_span,
                    work: state.work,
                    defers: state.defers,
                    block_scopes: state.block_scopes,
                });
            }
            i = i + 1;
        }
        None
    }
}

} // verus!
