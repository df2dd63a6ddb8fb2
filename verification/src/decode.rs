//! Reading the indexed IR: cursor primitives that turn IR faults into runtime
//! errors, and the fixed-width codecs values are stored with.
use vstd::prelude::*;
use crate::value::{Span, RuntimeError, ErrorModel, err_model};
use crate::ir::{
    FullPayload, FullExecution, FullTag, IrVerifyError, BinaryOp, binary_op_of, Name,
    LoweredFunctionKind,
};

verus! {

/// The message prefix every IR fault carries once it becomes a runtime error.
pub open spec fn ir_message(detail: Seq<char>) -> Seq<char> {
    "indexed IR verification failed: "@ + detail
}

/// Whether `e` is an IR fault raised at `span`.
pub open spec fn is_ir_error(e: ErrorModel, span: Span) -> bool {
    e.kind == "indexed-ir"@ && e.span == Some(span)
}

/// The runtime error an IR fault becomes at `span`.
pub fn indexed_error(error: IrVerifyError, span: Span) -> (e: RuntimeError)
    ensures
        e@ == err_model("indexed-ir"@, ir_message(error.message@), Some(span)),
{
    let mut message = String::from_str("indexed IR verification failed: ");
    message.append(error.message.as_str());
    RuntimeError::new_owned("indexed-ir", message).with_span(span)
}

/// An instruction lookup, with a fault turned into a runtime error.
pub fn indexed_value(
    value: Result<(FullTag, FullPayload), IrVerifyError>,
    span: Span,
) -> (r: Result<(FullTag, FullPayload), RuntimeError>)
    ensures
        match value {
            Ok(v) => r == Ok::<(FullTag, FullPayload), RuntimeError>(v),
            Err(f) => r matches Err(e) && e@ == err_model("indexed-ir"@, ir_message(f.message@), Some(span)),
        },
{
    match value {
        Ok(v) => Ok(v),
        Err(error) => Err(indexed_error(error, span)),
    }
}

/// Reads the next word of `payload`.
pub fn indexed_raw(payload: &mut FullPayload, span: Span) -> (r: Result<u32, RuntimeError>)
    requires
        old(payload).wf(),
    ensures
        final(payload).wf(),
        final(payload).words@ == old(payload).words@,
        match r {
            Ok(w) => old(payload).rest().len() > 0 && w == old(payload).rest()[0]
                && final(payload).rest() == old(payload).rest().drop_first(),
            Err(e) => old(payload).rest().len() == 0 && is_ir_error(e@, span),
        },
{
    match payload.raw() {
        Ok(w) => Ok(w),
        Err(error) => Err(indexed_error(error, span)),
    }
}

/// Checks that `payload` has been read to its end.
pub fn indexed_finish(payload: FullPayload, span: Span) -> (r: Result<(), RuntimeError>)
    requires
        payload.wf(),
    ensures
        r is Ok <==> payload.rest().len() == 0,
        r matches Err(e) ==> is_ir_error(e@, span),
{
    match payload.finish() {
        Ok(()) => Ok(()),
        Err(error) => Err(indexed_error(error, span)),
    }
}

/// An optional word: a `0` tag for none, or a `1` tag followed by the word.
pub open spec fn optional_raw_of(rest: Seq<u32>) -> Option<(Option<u32>, nat)> {
    if rest.len() >= 1 && rest[0] == 0 {
        Some((None, 1))
    } else if rest.len() >= 2 && rest[0] == 1 {
        Some((Some(rest[1]), 2))
    } else {
        None
    }
}

/// Reads an optional word.
pub fn indexed_optional_raw(payload: &mut FullPayload, span: Span) -> (r: Result<Option<u32>, RuntimeError>)
    requires
        old(payload).wf(),
    ensures
        final(payload).wf(),
        final(payload).words@ == old(payload).words@,
        match r {
            Ok(v) => optional_raw_of(old(payload).rest()) matches Some((w, n))
                && v == w && final(payload).rest() == old(payload).rest().skip(n as int),
            Err(e) => optional_raw_of(old(payload).rest()) is None && e@.span == Some(span)
                && e@.kind == "indexed-ir"@,
        },
{
    let ghost rest0 = payload.rest();
    let tag = indexed_raw(payload, span)?;
    if tag == 0 {
        assert(rest0.skip(1) =~= rest0.drop_first());
        Ok(None)
    } else if tag == 1 {
        let w = indexed_raw(payload, span)?;
        assert(rest0.skip(2) =~= rest0.drop_first().drop_first());
        Ok(Some(w))
    } else {
        Err(RuntimeError::new("indexed-ir", "invalid optional value tag").with_span(span))
    }
}

/// The string with index `id`, read from `payload`.
pub fn indexed_string<'a>(
    payload: &mut FullPayload,
    execution: &'a FullExecution,
    span: Span,
) -> (r: Result<&'a String, RuntimeError>)
    requires
        old(payload).wf(),
    ensures
        final(payload).wf(),
        final(payload).words@ == old(payload).words@,
        match r {
            Ok(s) => old(payload).rest().len() > 0
                && (old(payload).rest()[0] as int) < execution.strings@.len()
                && *s == execution.strings@[old(payload).rest()[0] as int]
                && final(payload).rest() == old(payload).rest().drop_first(),
            Err(e) => (old(payload).rest().len() == 0
                || old(payload).rest()[0] as int >= execution.strings@.len()) && is_ir_error(e@, span),
        },
{
    let id = indexed_raw(payload, span)?;
    match execution.string(id) {
        Ok(s) => Ok(s),
        Err(error) => Err(indexed_error(error, span)),
    }
}

/// A value stored in a fixed number of payload words.
pub trait FullCodec: Sized {
    /// How many words the value takes.
    spec fn width() -> nat;

    /// The value `words` (exactly `width` of them) hold, given how many
    /// strings the program has; `None` where they hold none.
    spec fn from_words(words: Seq<u32>, string_count: nat) -> Option<Self>;

    fn decode(payload: &mut FullPayload, execution: &FullExecution) -> (r: Result<Self, IrVerifyError>)
        requires
            old(payload).wf(),
        ensures
            final(payload).wf(),
            final(payload).words@ == old(payload).words@,
            match r {
                Ok(v) => old(payload).rest().len() >= Self::width()
                    && Self::from_words(old(payload).rest().take(Self::width() as int), execution.strings@.len())
                    == Some(v) && final(payload).rest() == old(payload).rest().skip(Self::width() as int),
                Err(_) => !(old(payload).rest().len() >= Self::width()
                    && Self::from_words(old(payload).rest().take(Self::width() as int), execution.strings@.len()) is Some),
            };
}

/// The value of `T` at the front of `rest`, and its width.
pub open spec fn codec_of<T: FullCodec>(rest: Seq<u32>, string_count: nat) -> Option<(T, nat)> {
    if rest.len() >= T::width() {
        match T::from_words(rest.take(T::width() as int), string_count) {
            Some(v) => Some((v, T::width())),
            None => None,
        }
    } else {
        None
    }
}

/// Reads a `T` from `payload`.
pub fn indexed_decode<T: FullCodec>(
    payload: &mut FullPayload,
    execution: &FullExecution,
    span: Span,
) -> (r: Result<T, RuntimeError>)
    requires
        old(payload).wf(),
    ensures
        final(payload).wf(),
        final(payload).words@ == old(payload).words@,
        match r {
            Ok(v) => codec_of::<T>(old(payload).rest(), execution.strings@.len()) == Some((v, T::width()))
                && final(payload).rest() == old(payload).rest().skip(T::width() as int),
            Err(e) => codec_of::<T>(old(payload).rest(), execution.strings@.len()) is None
                && is_ir_error(e@, span),
        },
{
    match T::decode(payload, execution) {
        Ok(v) => Ok(v),
        Err(error) => Err(indexed_error(error, span)),
    }
}

/// Reads `n` words at once, for the fixed-width codecs.
fn read_words(payload: &mut FullPayload, n: usize) -> (r: Result<Vec<u32>, IrVerifyError>)
    requires
        old(payload).wf(),
    ensures
        final(payload).wf(),
        final(payload).words@ == old(payload).words@,
        match r {
            Ok(ws) => old(payload).rest().len() >= n && ws@ == old(payload).rest().take(n as int)
                && final(payload).rest() == old(payload).rest().skip(n as int),
            Err(_) => old(payload).rest().len() < n,
        },
{
    if payload.words.len() - payload.pos < n {
        return Err(IrVerifyError::new("payload ended early"));
    }
    let mut ws: Vec<u32> = Vec::new();
    let ghost rest0 = payload.rest();
    let ghost pos0 = payload.pos;
    let mut i: usize = 0;
    while i < n
        invariant
            payload.wf(),
            payload.words@ == old(payload).words@,
            rest0 == old(payload).rest(),
            pos0 == old(payload).pos,
            rest0.len() >= n,
            pos0 + n <= payload.words@.len(),
            i <= n,
            payload.pos == pos0 + i,
            ws@ == rest0.take(i as int),
        decreases n - i,
    {
        assert(payload.pos < payload.words.len());
        let w = payload.words[payload.pos];
        payload.pos = payload.pos + 1;
        ws.push(w);
        i = i + 1;
        assert(ws@ =~= rest0.take(i as int));
    }
    assert(payload.rest() =~= rest0.skip(n as int));
    Ok(ws)
}

impl FullCodec for Span {
    open spec fn width() -> nat {
        3
    }

    open spec fn from_words(words: Seq<u32>, string_count: nat) -> Option<Span> {
        Some(Span { source: words[0], start: words[1], end: words[2] })
    }

    fn decode(payload: &mut FullPayload, execution: &FullExecution) -> (r: Result<Span, IrVerifyError>) {
        let ws = read_words(payload, 3)?;
        Ok(Span { source: ws[0], start: ws[1], end: ws[2] })
    }
}

impl FullCodec for usize {
    open spec fn width() -> nat {
        1
    }

    open spec fn from_words(words: Seq<u32>, string_count: nat) -> Option<usize> {
        Some(words[0] as usize)
    }

    fn decode(payload: &mut FullPayload, execution: &FullExecution) -> (r: Result<usize, IrVerifyError>) {
        let ws = read_words(payload, 1)?;
        Ok(ws[0] as usize)
    }
}

impl FullCodec for bool {
    open spec fn width() -> nat {
        1
    }

    open spec fn from_words(words: Seq<u32>, string_count: nat) -> Option<bool> {
        if words[0] == 0 {
            Some(false)
        } else if words[0] == 1 {
            Some(true)
        } else {
            None
        }
    }

    fn decode(payload: &mut FullPayload, execution: &FullExecution) -> (r: Result<bool, IrVerifyError>) {
        let ghost rest0 = payload.rest();
        let ws = read_words(payload, 1)?;
        if ws[0] == 0 {
            Ok(false)
        } else if ws[0] == 1 {
            Ok(true)
        } else {
            Err(IrVerifyError::new("invalid boolean"))
        }
    }
}

/// The integer two words hold, low word first, in two's complement.
pub open spec fn i64_of_words(lo: u32, hi: u32) -> int {
    if hi < 0x8000_0000 {
        hi as int * 0x1_0000_0000 + lo as int
    } else {
        hi as int * 0x1_0000_0000 + lo as int - 0x1_0000_0000_0000_0000
    }
}

impl FullCodec for i64 {
    open spec fn width() -> nat {
        2
    }

    open spec fn from_words(words: Seq<u32>, string_count: nat) -> Option<i64> {
        Some(i64_of_words(words[0], words[1]) as i64)
    }

    fn decode(payload: &mut FullPayload, execution: &FullExecution) -> (r: Result<i64, IrVerifyError>) {
        let ws = read_words(payload, 2)?;
        let lo = ws[0] as i128;
        let hi = ws[1] as i128;
        let v: i128 = if ws[1] < 0x8000_0000 {
            hi * 0x1_0000_0000 + lo
        } else {
            hi * 0x1_0000_0000 + lo - 0x1_0000_0000_0000_0000
        };
        Ok(v as i64)
    }
}

impl FullCodec for BinaryOp {
    open spec fn width() -> nat {
        1
    }

    open spec fn from_words(words: Seq<u32>, string_count: nat) -> Option<BinaryOp> {
        binary_op_of(words[0])
    }

    fn decode(payload: &mut FullPayload, execution: &FullExecution) -> (r: Result<BinaryOp, IrVerifyError>) {
        let ws = read_words(payload, 1)?;
        let code = ws[0];
        let op = if code == 0 { BinaryOp::Add }
            else if code == 1 { BinaryOp::Sub }
            else if code == 2 { BinaryOp::Mul }
            else if code == 3 { BinaryOp::Eq }
            else if code == 4 { BinaryOp::Ne }
            else if code == 5 { BinaryOp::Lt }
            else if code == 6 { BinaryOp::Le }
            else if code == 7 { BinaryOp::Gt }
            else if code == 8 { BinaryOp::Ge }
            else if code == 9 { BinaryOp::And }
            else if code == 10 { BinaryOp::Or }
            else if code == 11 { BinaryOp::Div }
            else if code == 12 { BinaryOp::Rem }
            else {
                return Err(IrVerifyError::new("invalid binary operator"));
            };
        Ok(op)
    }
}

impl FullCodec for Name {
    open spec fn width() -> nat {
        1
    }

    open spec fn from_words(words: Seq<u32>, string_count: nat) -> Option<Name> {
        if (words[0] as nat) < string_count {
            Some(Name { id: words[0] })
        } else {
            None
        }
    }

    fn decode(payload: &mut FullPayload, execution: &FullExecution) -> (r: Result<Name, IrVerifyError>) {
        let ws = read_words(payload, 1)?;
        if (ws[0] as usize) < execution.strings.len() {
            Ok(Name { id: ws[0] })
        } else {
            Err(IrVerifyError::new("name index out of range"))
        }
    }
}

impl FullCodec for LoweredFunctionKind {
    open spec fn width() -> nat {
        1
    }

    open spec fn from_words(words: Seq<u32>, string_count: nat) -> Option<LoweredFunctionKind> {
        if words[0] == 0 {
            Some(LoweredFunctionKind::Pure)
        } else if words[0] == 1 {
            Some(LoweredFunctionKind::Proc)
        } else {
            None
        }
    }

    fn decode(payload: &mut FullPayload, execution: &FullExecution) -> (r: Result<LoweredFunctionKind, IrVerifyError>) {
        let ws = read_words(payload, 1)?;
        if ws[0] == 0 {
            Ok(LoweredFunctionKind::Pure)
        } else if ws[0] == 1 {
            Ok(LoweredFunctionKind::Proc)
        } else {
            Err(IrVerifyError::new("invalid function kind"))
        }
    }
}

} // verus!

verus! {

/// Reads `n` consecutive items from `w`, each with `item`, which gives an
/// item and the number of words it took; `None` as soon as one cannot be read.
pub open spec fn parse_many<T>(
    w: Seq<u32>,
    n: nat,
    item: spec_fn(Seq<u32>) -> Option<(T, nat)>,
) -> Option<(Seq<T>, nat)>
    decreases n,
{
    if n == 0 {
        Some((Seq::empty(), 0))
    } else {
        match parse_many(w, (n - 1) as nat, item) {
            Some((xs, used)) => if used <= w.len() {
                match item(w.skip(used as int)) {
                    Some((x, k)) => Some((xs.push(x), used + k)),
                    None => None,
                }
            } else {
                None
            },
            None => None,
        }
    }
}

/// Once an item cannot be read, no longer run can be read either.
pub proof fn lemma_parse_many_none_stays<T>(
    w: Seq<u32>,
    i: nat,
    n: nat,
    item: spec_fn(Seq<u32>) -> Option<(T, nat)>,
)
    requires
        i <= n,
        parse_many(w, i, item) is None,
    ensures
        parse_many(w, n, item) is None,
    decreases n - i,
{
    if i < n {
        lemma_parse_many_none_stays(w, i, (n - 1) as nat, item);
    }
}

/// A counted list block: the block index at the front of `rest` names a list
/// block whose first word is the count and whose other words are exactly the
/// items.
pub open spec fn list_block_of<T>(
    execution: &FullExecution,
    rest: Seq<u32>,
    item: spec_fn(Seq<u32>) -> Option<(T, nat)>,
) -> Option<Seq<T>> {
    if rest.len() > 0 && execution.block_ok(rest[0], crate::ir::BLOCK_LIST) {
        let w = execution.blocks@[rest[0] as int].words@;
        if w.len() > 0 {
            match parse_many(w.drop_first(), w[0] as nat, item) {
                Some((xs, used)) => if used == w.len() - 1 { Some(xs) } else { None },
                None => None,
            }
        } else {
            None
        }
    } else {
        None
    }
}

} // verus!
