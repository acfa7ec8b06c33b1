use zercalo_format::animatable::Animatable;
use zercalo_format::composition::{Composition, RelativePart};
use zercalo_format::stepper::{Step, Stepper};

#[derive(Clone, Debug, PartialEq)]
struct Counter {
    animated: Vec<u32>,
    total: u64,
}

impl Animatable for Counter {
    fn animate(&mut self, frame: u32) {
        self.animated.push(frame);
    }
}

struct AddFrame {
    calls: u32,
}

impl Step<Counter> for AddFrame {
    fn step(&mut self, value: &mut Counter, frame: u32) {
        self.calls += 1;
        value.total += frame as u64;
    }
}

#[test]
fn stepper_runs_inner_then_mutator() {
    let mut s = Stepper::new(Counter { animated: vec![], total: 0 }, AddFrame { calls: 0 });
    for f in 0..5 {
        s.animate(f);
    }
    assert_eq!(s.value.animated, vec![0, 1, 2, 3, 4]);
    assert_eq!(s.value.total, 10);
    assert_eq!(s.stepper.calls, 5);
}

#[test]
fn composition_animates_every_part_in_order() {
    let part = |p: f32| RelativePart {
        value: Counter { animated: vec![], total: 0 },
        position: glam::Vec3::new(p, 0.0, 0.0),
        rotation: glam::Quat::IDENTITY,
    };
    let mut c = Composition {
        parts: vec![part(1.0), part(2.0)],
        position: glam::Vec3::new(0.0, 5.0, 0.0),
        rotation: glam::Quat::IDENTITY,
    };
    c.animate(7);
    c.animate(8);
    for (i, p) in c.parts.iter().enumerate() {
        assert_eq!(p.value.animated, vec![7, 8]);
        assert_eq!(p.position, glam::Vec3::new((i + 1) as f32, 0.0, 0.0));
    }
    assert_eq!(c.position, glam::Vec3::new(0.0, 5.0, 0.0));
}

struct SeenByMutator {
    seen: Vec<usize>,
}

impl Step<Counter> for SeenByMutator {
    fn step(&mut self, value: &mut Counter, _frame: u32) {
        self.seen.push(value.animated.len());
    }
}

#[test]
fn stepper_mutator_sees_animated_value() {
    let mut s = Stepper::new(Counter { animated: vec![], total: 0 }, SeenByMutator { seen: vec![] });
    s.animate(0);
    s.animate(1);
    assert_eq!(s.stepper.seen, vec![1, 2]);
}
