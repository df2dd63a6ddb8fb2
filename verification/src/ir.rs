//! The indexed intermediate representation: a program is a table of
//! instructions, blocks, pipeline stages, strings and functions. Every
//! instruction and stage carries a tag and a payload of 32-bit words; a
//! payload is read front to back by a cursor, and a block is a payload that
//! other payloads refer to by its index.
use vstd::prelude::*;
use crate::value::Span;

verus! {

/// An interned name: an index into the program's string table.
#[derive(Clone, Copy, PartialEq, Eq, Structural, Debug)]
pub struct Name {
    pub id: u32,
}

/// Instruction tags.
#[derive(Clone, Copy, PartialEq, Eq, Structural, Debug)]
pub enum FullTag {
    ExprNull,
    ExprUnit,
    ExprBool,
    ExprInt,
    ExprStr,
    ExprParam,
    ExprField,
    ExprBinary,
    ExprNot,
    ExprTry,
    ExprRecord,
    ExprList,
    ExprCall,
    ExprPipeline,
    ExprOk,
    ExprErr,
    ExprResultFallback,
    ExprIf,
    ExprRange,
    ExprTag,
    ExprEmptyMap,
    StmtLet,
    StmtAssign,
    StmtGuard,
    StmtLetRecord,
    StmtExpr,
    StmtReturn,
    StmtIf,
    StmtDefer,
    StmtYield,
    StmtBreak,
    StmtContinue,
    StmtFor,
    StmtForLines,
    StmtWhile,
    StmtLoop,
    StmtMatch,
    PatWildcard,
    PatBind,
    PatLiteral,
    PatOk,
    PatErr,
    PatTag,
}

/// Pipeline stage tags.
#[derive(Clone, Copy, PartialEq, Eq, Structural, Debug)]
pub enum FullStageTag {
    Where,
    WhereBlock,
    MapItems,
    MapBlock,
    FlatMap,
    FlatMapBlock,
    Tee,
    Enumerate,
    Sort,
    Count,
    Any,
    All,
    AnyBlock,
    AllBlock,
    Collect,
    First,
    Take,
    Drop,
    Last,
    Sum,
    Min,
    Max,
}

/// Binary operators, numbered in the order of their codes.
#[derive(Clone, Copy, PartialEq, Eq, Structural, Debug)]
pub enum BinaryOp {
    Add,
    Sub,
    Mul,
    Div,
    Rem,
    Eq,
    Ne,
    Lt,
    Le,
    Gt,
    Ge,
    And,
    Or,
}

/// The operator a code denotes, if any.
pub open spec fn binary_op_of(code: u32) -> Option<BinaryOp> {
    if code == 0 { Some(BinaryOp::Add) }
    else if code == 1 { Some(BinaryOp::Sub) }
    else if code == 2 { Some(BinaryOp::Mul) }
    else if code == 3 { Some(BinaryOp::Eq) }
    else if code == 4 { Some(BinaryOp::Ne) }
    else if code == 5 { Some(BinaryOp::Lt) }
    else if code == 6 { Some(BinaryOp::Le) }
    else if code == 7 { Some(BinaryOp::Gt) }
    else if code == 8 { Some(BinaryOp::Ge) }
    else if code == 9 { Some(BinaryOp::And) }
    else if code == 10 { Some(BinaryOp::Or) }
    else if code == 11 { Some(BinaryOp::Div) }
    else if code == 12 { Some(BinaryOp::Rem) }
    else { None }
}

/// The operator an assignment code denotes: `None` for a plain `=`, else
/// the operator a compound assignment (`+=`, `-=`, `*=`, `/=`, `%=`)
/// applies to the slot and the value.
pub open spec fn assign_op_of(code: u32) -> Option<Option<BinaryOp>> {
    if code == 0 { Some(None) }
    else if code == 1 { Some(Some(BinaryOp::Add)) }
    else if code == 2 { Some(Some(BinaryOp::Sub)) }
    else if code == 3 { Some(Some(BinaryOp::Mul)) }
    else if code == 4 { Some(Some(BinaryOp::Div)) }
    else if code == 5 { Some(Some(BinaryOp::Rem)) }
    else { None }
}

/// Block kinds.
pub const BLOCK_LIST: u32 = 0;
pub const BLOCK_STATEMENTS: u32 = 1;

/// The key a function is called by.
#[derive(Clone, Copy, PartialEq, Eq, Structural, Debug)]
pub struct LoweredFunctionKey {
    pub name: Name,
}

/// Whether a function is pure or a procedure.
#[derive(Clone, Copy, PartialEq, Eq, Structural, Debug)]
pub enum LoweredFunctionKind {
    Pure,
    Proc,
}

/// The declared result of a function.
#[derive(Clone, Copy, PartialEq, Eq, Structural, Debug)]
pub enum LoweredType {
    Any,
    Unit,
    Bool,
    Int,
    Str,
    List,
    Stream,
}

/// What a frame needs to know of its function before running it.
#[derive(Clone, Copy, PartialEq, Eq, Structural, Debug)]
pub struct FunctionHeader {
    pub param_count: usize,
    pub return_kind: LoweredType,
    pub slot_count: usize,
}

/// A failure to read the IR: it is malformed where it was read.
#[derive(Debug)]
pub struct IrVerifyError {
    pub message: String,
}

impl IrVerifyError {
    pub fn new(message: &str) -> (e: IrVerifyError)
        ensures
            e.message@ == message@,
    {
        IrVerifyError { message: String::from_str(message) }
    }
}

pub struct FullInstruction {
    pub tag: FullTag,
    pub words: Vec<u32>,
}

pub struct FullBlock {
    pub kind: u32,
    pub words: Vec<u32>,
}

pub struct FullStage {
    pub tag: FullStageTag,
    pub words: Vec<u32>,
}

/// A function of the program: its key and kind, header, body block and
/// where it is defined.
pub struct FullFunction {
    pub key: LoweredFunctionKey,
    pub kind: LoweredFunctionKind,
    pub header: FunctionHeader,
    pub body: u32,
    pub definition_span: Span,
}

/// The tables an executing function reads.
pub struct FullExecution {
    pub instructions: Vec<FullInstruction>,
    pub blocks: Vec<FullBlock>,
    pub stages: Vec<FullStage>,
    pub strings: Vec<String>,
}

/// A whole program: its tables and its functions.
pub struct FullProgram {
    pub execution: FullExecution,
    pub functions: Vec<FullFunction>,
}

/// A read cursor over a payload.
pub struct FullPayload {
    pub words: Vec<u32>,
    pub pos: usize,
}

impl FullPayload {
    pub open spec fn wf(&self) -> bool {
        self.pos <= self.words@.len()
    }

    /// The words not yet read.
    pub open spec fn rest(&self) -> Seq<u32> {
        self.words@.subrange(self.pos as int, self.words@.len() as int)
    }

    /// A cursor at the start of `words`.
    pub fn new(words: Vec<u32>) -> (p: FullPayload)
        ensures
            p.wf(),
            p.rest() == words@,
            p.pos == 0,
    {
        let p = FullPayload { words, pos: 0 };
        assert(p.rest() =~= p.words@);
        p
    }

    /// Reads the next word.
    pub fn raw(&mut self) -> (r: Result<u32, IrVerifyError>)
        requires
            old(self).wf(),
        ensures
            final(self).wf(),
            final(self).words@ == old(self).words@,
            match r {
                Ok(w) => old(self).rest().len() > 0 && w == old(self).rest()[0]
                    && final(self).rest() == old(self).rest().drop_first()
                    && final(self).pos == old(self).pos + 1,
                Err(e) => old(self).rest().len() == 0 && e.message@ == "payload ended early"@
                    && final(self).pos == old(self).pos,
            },
    {
        if self.pos < self.words.len() {
            let w = self.words[self.pos];
            self.pos = self.pos + 1;
            assert(self.rest() =~= old(self).rest().drop_first());
            Ok(w)
        } else {
            Err(IrVerifyError::new("payload ended early"))
        }
    }

    /// Checks that every word has been read.
    pub fn finish(self) -> (r: Result<(), IrVerifyError>)
        requires
            self.wf(),
        ensures
            r is Ok <==> self.rest().len() == 0,
            r matches Err(e) ==> e.message@ == "payload has trailing words"@,
    {
        if self.pos == self.words.len() {
            Ok(())
        } else {
            Err(IrVerifyError::new("payload has trailing words"))
        }
    }
}

impl FullExecution {
    /// The tag and payload of instruction `id`.
    pub fn instruction_id(&self, id: u32) -> (r: Result<(FullTag, FullPayload), IrVerifyError>)
        ensures
            match r {
                Ok((tag, p)) => (id as int) < self.instructions@.len()
                    && tag == self.instructions@[id as int].tag
                    && p.wf() && p.pos == 0 && p.rest() == self.instructions@[id as int].words@,
                Err(e) => (id as int) >= self.instructions@.len()
                    && e.message@ == "instruction index out of range"@,
            },
    {
        if (id as usize) < self.instructions.len() {
            let ins = &self.instructions[id as usize];
            let words = ins.words.clone();
            assert(words@ =~= ins.words@);
            Ok((ins.tag, FullPayload::new(words)))
        } else {
            Err(IrVerifyError::new("instruction index out of range"))
        }
    }

    /// The tag and payload of stage `id`.
    pub fn stage_id(&self, id: u32) -> (r: Result<(FullStageTag, FullPayload), IrVerifyError>)
        ensures
            match r {
                Ok((tag, p)) => (id as int) < self.stages@.len()
                    && tag == self.stages@[id as int].tag
                    && p.wf() && p.pos == 0 && p.rest() == self.stages@[id as int].words@,
                Err(e) => (id as int) >= self.stages@.len()
                    && e.message@ == "stage index out of range"@,
            },
    {
        if (id as usize) < self.stages.len() {
            let st = &self.stages[id as usize];
            let words = st.words.clone();
            assert(words@ =~= st.words@);
            Ok((st.tag, FullPayload::new(words)))
        } else {
            Err(IrVerifyError::new("stage index out of range"))
        }
    }

    /// Whether block `id` exists and has `kind`.
    pub open spec fn block_ok(&self, id: u32, kind: u32) -> bool {
        (id as int) < self.blocks@.len() && self.blocks@[id as int].kind == kind
    }

    /// The payload of block `id`, which must be of `kind`.
    pub fn block_id(&self, id: u32, kind: u32) -> (r: Result<(u32, FullPayload), IrVerifyError>)
        ensures
            match r {
                Ok((k, p)) => self.block_ok(id, kind) && k == kind
                    && p.wf() && p.pos == 0 && p.rest() == self.blocks@[id as int].words@,
                Err(_) => !self.block_ok(id, kind),
            },
    {
        if (id as usize) < self.blocks.len() {
            let b = &self.blocks[id as usize];
            if b.kind != kind {
                return Err(IrVerifyError::new("block kind mismatch"));
            }
            let words = b.words.clone();
            assert(words@ =~= b.words@);
            Ok((kind, FullPayload::new(words)))
        } else {
            Err(IrVerifyError::new("block index out of range"))
        }
    }

    /// Reads a block index from `payload` and opens that block.
    pub fn block(&self, payload: &mut FullPayload, kind: u32) -> (r: Result<(u32, FullPayload), IrVerifyError>)
        requires
            old(payload).wf(),
        ensures
            final(payload).wf(),
            final(payload).words@ == old(payload).words@,
            match r {
                Ok((k, p)) => old(payload).rest().len() > 0
                    && self.block_ok(old(payload).rest()[0], kind) && k == kind
                    && final(payload).rest() == old(payload).rest().drop_first()
                    && p.wf() && p.pos == 0 && p.rest() == self.blocks@[old(payload).rest()[0] as int].words@,
                Err(_) => old(payload).rest().len() == 0 || !self.block_ok(old(payload).rest()[0], kind),
            },
    {
        let id = payload.raw()?;
        self.block_id(id, kind)
    }

    /// The string with index `id`.
    pub fn string(&self, id: u32) -> (r: Result<&String, IrVerifyError>)
        ensures
            match r {
                Ok(s) => (id as int) < self.strings@.len() && *s == self.strings@[id as int],
                Err(_) => (id as int) >= self.strings@.len(),
            },
    {
        if (id as usize) < self.strings.len() {
            Ok(&self.strings[id as usize])
        } else {
            Err(IrVerifyError::new("string index out of range"))
        }
    }
}

} // verus!
