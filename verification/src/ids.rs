//! Handles for the things that the compositor owns and the switcher only refers to.

use vstd::prelude::*;

verus! {

/// A mapped window.
#[derive(Clone, Copy, Debug, PartialEq, Eq, Hash, Structural)]
pub struct MappedId(pub u64);

/// An output that windows and the switcher are shown on.
#[derive(Clone, Copy, Debug, PartialEq, Eq, Hash, Structural)]
pub struct OutputId(pub u64);

/// An animation that the compositor runs against its clock.
#[derive(Clone, Copy, Debug, PartialEq, Eq, Hash, Structural)]
pub struct AnimationId(pub u64);

/// A texture on the GPU.
#[derive(Clone, Copy, Debug, PartialEq, Eq, Hash, Structural)]
pub struct TextureId(pub u64);

/// Whether `animation` is among the `finished` ones.
pub fn is_done(animation: AnimationId, finished: &Vec<AnimationId>) -> (done: bool)
    ensures
        done == finished@.contains(animation),
{
    let mut i: usize = 0;
    while i < finished.len()
        invariant
            i <= finished.len(),
            forall|j: int| 0 <= j < i ==> finished@[j] != animation,
        decreases finished.len() - i,
    {
        if finished[i] == animation {
            return true;
        }
        i += 1;
    }
    false
}

} // verus!
