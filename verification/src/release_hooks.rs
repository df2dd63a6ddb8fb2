//! The host-call hook of a build without native tests: every host
//! operation goes to the host.
use vstd::prelude::*;
use crate::value::{Span, Value, RecordMap};
use crate::evaluator::Evaluator;

verus! {

/// Leaves every host operation to the host: nothing is recorded and no
/// answer is given.
pub fn intercept_test_host_call(evaluator: &mut Evaluator, op: &str, args: RecordMap, span: Span) -> (r: Option<Value>)
    ensures
        r is None,
        final(evaluator).test_calls == old(evaluator).test_calls,
        final(evaluator).test_mocks == old(evaluator).test_mocks,
{
    None
}

} // verus!
