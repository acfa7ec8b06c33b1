//! Stepping a value each frame with a mutator of the caller's choice.
use vstd::prelude::*;
use crate::animatable::Animatable;

verus! {

/// A mutator that changes a value for a frame; kept by a `Stepper` for its
/// whole life, so it may carry state of its own from frame to frame.
pub trait Step<T>: Sized {
    /// Whether stepping `value` at `frame` may leave the mutator as
    /// `next_self` and the value as `next_value`; any states, unless an
    /// implementation says more.
    open spec fn stepped(&self, value: T, frame: u32, next_self: Self, next_value: T) -> bool {
        true
    }

    fn step(&mut self, value: &mut T, frame: u32)
        ensures
            old(self).stepped(*old(value), frame, *final(self), *final(value)),
    ;
}

/// Wraps a value and applies a mutator to it after each of its own animation steps.
pub struct Stepper<T, S> {
    pub value: T,
    pub stepper: S,
}

impl<T, S: Step<T>> Stepper<T, S> {
    pub fn new(value: T, stepper: S) -> (s: Stepper<T, S>)
        ensures
            s.value == value,
            s.stepper == stepper,
    {
        Stepper { value, stepper }
    }
}

impl<T: Animatable, S: Step<T>> Animatable for Stepper<T, S> {
    open spec fn ready(&self) -> bool {
        self.value.ready()
    }

    /// The inner value is animated to some `mid`, and the mutator then takes
    /// `mid` to the final value.
    open spec fn animated(&self, frame: u32, next: Self) -> bool {
        exists|mid: T|
            #[trigger] self.value.animated(frame, mid) && self.stepper.stepped(
                mid,
                frame,
                next.stepper,
                next.value,
            )
    }

    /// Animates the inner value, then hands it to the mutator.
    fn animate(&mut self, frame: u32) {
        self.value.animate(frame);
        let ghost mid = self.value;
        self.stepper.step(&mut self.value, frame);
        assert(old(self).value.animated(frame, mid));
    }
}

} // verus!
