//! The evaluator's own state.
use vstd::prelude::*;
use rustc_hash::FxHashMap;
use crate::value::{Value, Span};
use crate::ir::{FullProgram, LoweredFunctionKind};
use crate::semantics::function_index;

verus! {

/// The hasher rustc-hash builds its maps with; values of it are only carried.
#[verifier::external_type_specification]
#[verifier::external_body]
pub struct ExFxBuildHasher(rustc_hash::FxBuildHasher);

/// A host operation a test recorded.
pub struct TestCall {
    pub op: String,
    pub args: Vec<(String, Value)>,
}

/// A mocked host operation: the arguments it answers, its answer, and how
/// many more times it may answer.
pub struct TestMock {
    pub matcher: Vec<(String, Value)>,
    pub result: Value,
    pub remaining: u64,
}

/// A frame of the traceback: which function, and where it was called from.
#[derive(Clone, Copy, PartialEq, Eq, Structural, Debug)]
pub struct TracebackFrame {
    pub function: crate::ir::LoweredFunctionKey,
    pub kind: crate::ir::LoweredFunctionKind,
    pub definition_span: Option<Span>,
    pub call_span: Option<Span>,
}

/// The evaluator: caches, the traceback, owned host scopes, and the state
/// tests and script producers keep.
pub struct Evaluator {
    /// The indexed program calls run in, once one is installed.
    pub indexed_program: Option<FullProgram>,
    /// Function table positions found so far, by function key and kind.
    pub indexed_function_cache: FxHashMap<u64, usize>,
    /// The items the running stream function has yielded.
    pub stream_items: Vec<Value>,
    /// Diagnostics written while evaluating.
    pub stderr: Vec<u8>,
    pub test_temp_counter: u64,
    pub test_calls: Vec<TestCall>,
    pub test_mocks: Vec<(String, Vec<TestMock>)>,
    /// The environment a process inherits, and the working directory.
    pub env: Vec<(Vec<u8>, Vec<u8>)>,
    pub cwd: Vec<u8>,
    pub call_stack: Vec<TracebackFrame>,
    /// The owned host scopes that are open, innermost last, and the id the
    /// next one gets.
    pub host_scopes: Vec<u64>,
    pub next_scope_id: u64,
}

/// The cache key of a function name and kind.
pub open spec fn function_cache_key(name: u32, kind: LoweredFunctionKind) -> u64 {
    (name as int * 2 + if kind == LoweredFunctionKind::Proc { 1int } else { 0int }) as u64
}

/// Every cached position is the first function of its name and kind in `p`.
pub open spec fn cache_valid(cache: Map<u64, usize>, p: FullProgram) -> bool {
    forall|name: u32, kind: LoweredFunctionKind| #[trigger] cache.contains_key(function_cache_key(name, kind))
        ==> function_index(p, name, kind) == Some(cache[function_cache_key(name, kind)] as nat)
}

/// The cache with no positions.
pub open spec fn no_positions() -> Map<u64, usize> {
    Map::empty()
}

/// `HashMap::get` on a cache of positions, copying the position out.
#[verifier::external_body]
pub(crate) fn fx_cache_get(m: &FxHashMap<u64, usize>, key: u64) -> (r: Option<usize>)
    ensures
        match r {
            Some(i) => m@.contains_key(key) && m@[key] == i,
            None => !m@.contains_key(key),
        },
{
    m.get(&key).copied()
}

/// `HashMap::insert` on a cache of positions.
#[verifier::external_body]
pub(crate) fn fx_cache_insert(m: &mut FxHashMap<u64, usize>, key: u64, value: usize)
    ensures
        final(m)@ == old(m)@.insert(key, value),
{
    m.insert(key, value);
}

/// `HashMap::clear` on a cache of positions.
#[verifier::external_body]
pub(crate) fn fx_cache_clear(m: &mut FxHashMap<u64, usize>)
    ensures
        final(m)@ == no_positions(),
{
    m.clear();
}

impl Evaluator {
    /// An evaluator with no program, empty caches and state, and `cwd` as
    /// its working directory.
    pub fn new(env: Vec<(Vec<u8>, Vec<u8>)>, cwd: Vec<u8>) -> (e: Evaluator)
        ensures
            e.indexed_program is None,
            e.indexed_function_cache@ == Map::<u64, usize>::empty(),
            e.stream_items@.len() == 0,
            e.stderr@.len() == 0,
            e.test_temp_counter == 0,
            e.test_calls@.len() == 0,
            e.test_mocks@.len() == 0,
            e.env@ == env@,
            e.cwd@ == cwd@,
            e.call_stack@.len() == 0,
            e.host_scopes@.len() == 0,
            e.next_scope_id == 0,
    {
        let cache: FxHashMap<u64, usize> = std::collections::HashMap::default();
        assert(cache@ == no_positions());
        Evaluator {
            indexed_program: None,
            indexed_function_cache: cache,
            stream_items: Vec::new(),
            stderr: Vec::new(),
            test_temp_counter: 0,
            test_calls: Vec::new(),
            test_mocks: Vec::new(),
            env,
            cwd,
            call_stack: Vec::new(),
            host_scopes: Vec::new(),
            next_scope_id: 0,
        }
    }

    /// Installs the program later calls run in, forgetting positions cached
    /// for the one before.
    pub fn install_indexed_program(&mut self, program: FullProgram)
        ensures
            final(self).indexed_program == Some(program),
            final(self).indexed_function_cache@ == Map::<u64, usize>::empty(),
            final(self).stream_items == old(self).stream_items,
            final(self).call_stack == old(self).call_stack,
    {
        self.indexed_program = Some(program);
        fx_cache_clear(&mut self.indexed_function_cache);
    }
}

} // verus!
