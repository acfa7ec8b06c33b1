//! Animated parts placed relative to a common frame of reference.
use vstd::prelude::*;
use crate::animatable::Animatable;

verus! {

/// A part with its own position and rotation relative to its composition.
#[derive(Clone, Debug)]
pub struct RelativePart<T> {
    pub value: T,
    pub position: glam::Vec3,
    pub rotation: glam::Quat,
}

impl<T: Animatable> Animatable for RelativePart<T> {
    open spec fn ready(&self) -> bool {
        self.value.ready()
    }

    /// The value is animated; the placement stays as it is.
    open spec fn animated(&self, frame: u32, next: Self) -> bool {
        &&& self.value.animated(frame, next.value)
        &&& next.position == self.position
        &&& next.rotation == self.rotation
    }

    fn animate(&mut self, frame: u32) {
        self.value.animate(frame)
    }
}

/// Parts that move together. The composition's own position and rotation
/// are for whoever turns the parts into models; animating does not apply them.
#[derive(Clone, Debug)]
pub struct Composition<T> {
    pub parts: Vec<RelativePart<T>>,
    pub position: glam::Vec3,
    pub rotation: glam::Quat,
}

impl<T: Animatable> Animatable for Composition<T> {
    open spec fn ready(&self) -> bool {
        forall|i: int| 0 <= i < self.parts@.len() ==> (#[trigger] self.parts@[i]).ready()
    }

    /// Every part is animated; the composition's placement stays as it is.
    open spec fn animated(&self, frame: u32, next: Self) -> bool {
        &&& next.parts@.len() == self.parts@.len()
        &&& forall|i: int|
            0 <= i < self.parts@.len() ==> (#[trigger] self.parts@[i]).animated(
                frame,
                next.parts@[i],
            )
        &&& next.position == self.position
        &&& next.rotation == self.rotation
    }

    /// Animates each part, in order.
    fn animate(&mut self, frame: u32) {
        let mut i: usize = 0;
        while i < self.parts.len()
            invariant
                0 <= i <= self.parts@.len(),
                self.parts@.len() == old(self).parts@.len(),
                forall|j: int| 0 <= j < i ==> (#[trigger] old(self).parts@[j]).animated(frame, self.parts@[j]),
                forall|j: int| i <= j < self.parts@.len() ==> #[trigger] self.parts@[j] == old(self).parts@[j],
                old(self).ready(),
                self.position == old(self).position,
                self.rotation == old(self).rotation,
            decreases self.parts@.len() - i,
        {
            assert(old(self).parts@[i as int].ready());
            self.parts[i].animate(frame);
            i = i + 1;
        }
    }
}

} // verus!
