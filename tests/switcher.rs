use zercalo_format::animatable::Animatable;
use zercalo_format::switcher::Switcher;

#[derive(Clone, Debug, PartialEq)]
struct Label {
    name: &'static str,
    frames_seen: Vec<u32>,
}

impl Label {
    fn new(name: &'static str) -> Label {
        Label { name, frames_seen: vec![] }
    }
}

impl Animatable for Label {
    fn animate(&mut self, frame: u32) {
        self.frames_seen.push(frame);
    }
}

fn labels_over(s: &mut Switcher<Label>, frames: std::ops::Range<u32>) -> Vec<&'static str> {
    let mut out = vec![];
    for f in frames {
        s.animate(f);
        out.push(s.current().name);
    }
    out
}

#[test]
fn switcher_new_builds_schedule() {
    let s = Switcher::new(vec![(3, Label::new("A")), (2, Label::new("B")), (4, Label::new("C"))]);
    assert_eq!(s.schedule, vec![3, 5, 9]);
    assert_eq!(s.variants.len(), 3);
    assert_eq!(s.active, 0);
    assert_eq!(s.last_frame, 0);
    assert_eq!(s.loop_offset, 0);
    assert!(s.looping);
    assert_eq!(s.cycle_len(), 9);
}

#[test]
fn switcher_looping_sequence() {
    let mut s = Switcher::new(vec![(3, Label::new("A")), (2, Label::new("B"))]);
    let seen = labels_over(&mut s, 0..10);
    assert_eq!(seen, vec!["A", "A", "A", "B", "B", "A", "A", "A", "B", "B"]);
}

#[test]
fn switcher_backward_replay_keeps_state() {
    let mut s = Switcher::new(vec![(3, Label::new("A")), (2, Label::new("B"))]);
    labels_over(&mut s, 0..10);
    let before = s.clone();
    s.animate(2);
    assert_eq!(s.current().name, "B");
    assert_eq!(s.active, before.active);
    assert_eq!(s.last_frame, before.last_frame);
    assert_eq!(s.loop_offset, before.loop_offset);
    assert_eq!(s.variants, before.variants);
}

#[test]
fn switcher_restarts_at_each_cycle() {
    let mut s = Switcher::new(vec![(3, Label::new("A")), (2, Label::new("B")), (1, Label::new("C"))]);
    let c = s.cycle_len();
    for f in 0..(4 * c + 1) {
        s.animate(f);
        if f % c == 0 {
            assert_eq!(s.active, 0, "frame {}", f);
            assert_eq!(s.loop_offset, f);
        }
    }
}

#[test]
fn switcher_animates_only_active_variant() {
    let mut s = Switcher::new(vec![(2, Label::new("A")), (2, Label::new("B"))]);
    labels_over(&mut s, 0..4);
    // the variant shown at a frame is animated before the switch
    assert_eq!(s.variants[0].frames_seen, vec![0, 1, 2]);
    assert_eq!(s.variants[1].frames_seen, vec![3]);
}

#[test]
fn switcher_without_looping_stays_on_last() {
    let mut s = Switcher::new(vec![(2, Label::new("A")), (1, Label::new("B"))]);
    s.looping = false;
    let seen = labels_over(&mut s, 0..6);
    assert_eq!(seen, vec!["A", "A", "B", "B", "B", "B"]);
    assert_eq!(s.loop_offset, 0);
}

#[test]
fn switcher_current_mut_changes_active_variant() {
    let mut s = Switcher::new(vec![(1, Label::new("A")), (1, Label::new("B"))]);
    s.current_mut().name = "Z";
    assert_eq!(s.variants[0].name, "Z");
    assert_eq!(s.variants[1].name, "B");
}

#[test]
fn switcher_skipped_frames_advance_one_variant_per_call() {
    let mut s = Switcher::new(vec![(1, Label::new("A")), (1, Label::new("B")), (1, Label::new("C"))]);
    s.animate(0);
    s.animate(10);
    assert_eq!(s.current().name, "B");
    assert_eq!(s.last_frame, 10);
}
