//! The small vectors the serial pipeline keeps its stages and its pending
//! rows in.
use vstd::prelude::*;
use smallvec::SmallVec;
use crate::serial::IndexedLiveSerialStage;

verus! {

/// A pipeline's stages, held in smallvec's inline-first vector, which Verus
/// cannot declare (its `Array` bound is refused); the vector is read only
/// through the functions below.
#[verifier::external_body]
pub struct LiveStageList {
    inner: SmallVec<[IndexedLiveSerialStage; 4]>,
}

/// The stages a stage list holds, first stage first.
pub uninterp spec fn live_stage_items(v: LiveStageList) -> Seq<IndexedLiveSerialStage>;

/// `SmallVec::new`: an empty stage list.
#[verifier::external_body]
pub fn stage_list_new() -> (v: LiveStageList)
    ensures
        live_stage_items(v) == Seq::<IndexedLiveSerialStage>::empty(),
{
    LiveStageList { inner: SmallVec::new() }
}

/// `SmallVec::push`: appends a stage.
#[verifier::external_body]
pub fn stage_list_push(v: &mut LiveStageList, stage: IndexedLiveSerialStage)
    requires
        live_stage_items(*old(v)).len() < usize::MAX,
    ensures
        live_stage_items(*final(v)) == live_stage_items(*old(v)).push(stage),
{
    v.inner.push(stage)
}

/// `SmallVec::len`: how many stages the list holds.
#[verifier::external_body]
pub fn stage_list_len(v: &LiveStageList) -> (n: usize)
    ensures
        n == live_stage_items(*v).len(),
{
    v.inner.len()
}

/// Indexing a stage list.
#[verifier::external_body]
pub fn stage_list_get(v: &LiveStageList, index: usize) -> (s: IndexedLiveSerialStage)
    requires
        index < live_stage_items(*v).len(),
    ensures
        s == live_stage_items(*v)[index as int],
{
    v.inner[index]
}

/// Assigning through an index of a stage list.
#[verifier::external_body]
pub fn stage_list_set(v: &mut LiveStageList, index: usize, stage: IndexedLiveSerialStage)
    requires
        index < live_stage_items(*old(v)).len(),
    ensures
        live_stage_items(*final(v)) == live_stage_items(*old(v)).update(index as int, stage),
{
    v.inner[index] = stage;
}

} // verus!
