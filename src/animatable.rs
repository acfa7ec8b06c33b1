//! Values whose state advances frame by frame.
use vstd::prelude::*;
use crate::model::Model;

verus! {

/// A value that can be advanced to a given frame of an animation.
///
/// Frames arrive in non-decreasing order, once each; an implementation may
/// treat an earlier frame as a replay.
pub trait Animatable: Sized {
    /// Whether the value is in a state from which it can be animated; any
    /// state, unless an implementation says otherwise.
    open spec fn ready(&self) -> bool {
        true
    }

    /// Whether `next` is a state that animating `self` to `frame` may leave;
    /// any state, unless an implementation says more.
    open spec fn animated(&self, frame: u32, next: Self) -> bool {
        true
    }

    /// Steps the state for the given frame.
    fn animate(&mut self, frame: u32)
        requires
            old(self).ready(),
        ensures
            old(self).animated(frame, *final(self)),
    ;
}

/// A voxel grid on its own does not move.
impl Animatable for Model {
    open spec fn ready(&self) -> bool {
        true
    }

    open spec fn animated(&self, frame: u32, next: Self) -> bool {
        next == *self
    }

    fn animate(&mut self, frame: u32) {
    }
}

} // verus!
