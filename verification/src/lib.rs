//! The indexed evaluator's verified core: the value model, the indexed IR
//! decoder, the serial stream pipeline, script producers, frame bookkeeping,
//! and the module-contract and record helpers.
use vstd::prelude::*;

pub mod value;
pub mod ir;
pub mod decode;
pub mod evaluator;
pub mod blocks;
pub mod runs;
pub mod stage_list;
pub mod serial;
pub mod shapes;
pub mod text;
pub mod lines;
pub mod records;
pub mod contract_text;
pub mod types;
pub mod cache_key;
pub mod semantics;
pub mod interp;
pub mod patterns;
pub mod sort_laws;
pub mod laws;
pub mod key_laws;
pub mod direct;
pub mod pipeline;
pub mod pipeline_laws;
pub mod serial_laws;
pub mod binary_stack;
pub mod process;
pub mod frames;
pub mod explicit;
pub mod continuation;
pub mod calls;
pub mod producer;
pub mod contract;
pub mod testing;
pub mod release_hooks;

verus! {
} // verus!
