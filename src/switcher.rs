//! Time-indexed choice between variants.
use vstd::prelude::*;
use crate::animatable::Animatable;

verus! {

/// The part of a switcher's state that its schedule drives.
#[derive(Clone, Copy, Debug, PartialEq, Eq)]
pub struct Phase {
    /// Index of the variant shown.
    pub active: u32,
    /// The last frame seen.
    pub last_frame: u32,
    /// The frame at which the current loop started.
    pub loop_offset: u32,
}

/// Total of the durations.
pub open spec fn total(durations: Seq<u32>) -> int
    decreases durations.len(),
{
    if durations.len() == 0 {
        0
    } else {
        total(durations.drop_last()) + durations.last()
    }
}

/// Durations of a list of (duration, variant) pairs.
pub open spec fn durations_of<T>(frames: Seq<(u32, T)>) -> Seq<u32> {
    frames.map_values(|p: (u32, T)| p.0)
}

/// Frame at which variant `i` ends within a loop: the durations up to and
/// including its own, summed.
pub open spec fn end_frame(durations: Seq<u32>, i: int) -> int {
    total(durations.take(i + 1))
}

/// Adding one more duration adds it to the total.
pub proof fn lemma_total_take(durations: Seq<u32>, k: int)
    requires
        0 <= k < durations.len(),
    ensures
        total(durations.take(k + 1)) == total(durations.take(k)) + durations[k],
{
    let t = durations.take(k + 1);
    assert(t.drop_last() =~= durations.take(k));
    assert(t.last() == durations[k]);
}

/// The total of a prefix is at most the total.
pub proof fn lemma_total_prefix(durations: Seq<u32>, k: int)
    requires
        0 <= k <= durations.len(),
    ensures
        0 <= total(durations.take(k)) <= total(durations),
    decreases durations.len() - k,
{
    if k == durations.len() {
        assert(durations.take(k) =~= durations);
        lemma_total_nonneg(durations);
    } else {
        lemma_total_take(durations, k);
        lemma_total_prefix(durations, k + 1);
        lemma_total_nonneg(durations.take(k));
    }
}

/// Durations never sum below zero.
pub proof fn lemma_total_nonneg(durations: Seq<u32>)
    ensures
        total(durations) >= 0,
    decreases durations.len(),
{
    if durations.len() > 0 {
        lemma_total_nonneg(durations.drop_last());
    }
}

/// The phase after one call of `animate(frame)`, given the schedule of end
/// frames and whether the animation loops.
pub open spec fn step(schedule: Seq<u32>, looping: bool, s: Phase, frame: u32) -> Phase {
    if frame < s.last_frame {
        s
    } else if frame >= schedule[s.active as int] + s.loop_offset {
        if s.active + 1 >= schedule.len() {
            if looping {
                Phase { active: 0, last_frame: frame, loop_offset: frame }
            } else {
                Phase { active: (schedule.len() - 1) as u32, last_frame: frame, ..s }
            }
        } else {
            Phase { active: (s.active + 1) as u32, last_frame: frame, ..s }
        }
    } else {
        Phase { last_frame: frame, ..s }
    }
}

/// The phase after animating every frame `0, 1, ..., f` in order, starting from `s`.
pub open spec fn run(schedule: Seq<u32>, looping: bool, s: Phase, f: nat) -> Phase
    decreases f,
{
    let before = if f == 0 {
        s
    } else {
        run(schedule, looping, s, (f - 1) as nat)
    };
    step(schedule, looping, before, f as u32)
}

/// The phase of a switcher that has just been built.
pub open spec fn start() -> Phase {
    Phase { active: 0, last_frame: 0, loop_offset: 0 }
}

/// A frame earlier than one already animated is a replay: once a switcher has
/// seen frame `f`, animating any earlier frame leaves its phase as it is.
pub proof fn law_replay_changes_nothing(schedule: Seq<u32>, looping: bool, s: Phase, f: u32, earlier: u32)
    requires
        earlier < f,
    ensures
        step(schedule, looping, s, f).last_frame >= f,
        step(schedule, looping, step(schedule, looping, s, f), earlier) == step(
            schedule,
            looping,
            s,
            f,
        ),
{
}

/// End frames grow with the index.
pub proof fn lemma_end_frame_mono(durations: Seq<u32>, i: int, j: int)
    requires
        0 <= i <= j < durations.len(),
    ensures
        end_frame(durations, i) <= end_frame(durations, j),
{
    let t = durations.take(j + 1);
    assert(t.take(i + 1) =~= durations.take(i + 1));
    lemma_total_prefix(t, i + 1);
}

/// The last variant ends where the loop ends.
pub proof fn lemma_end_frame_last(durations: Seq<u32>)
    requires
        durations.len() >= 1,
    ensures
        end_frame(durations, durations.len() - 1) == total(durations),
{
    assert(durations.take(durations.len() as int) =~= durations);
}

/// With positive durations, end frames strictly grow with the index.
pub proof fn lemma_end_frame_strict(durations: Seq<u32>, i: int, j: int)
    requires
        0 <= i < j < durations.len(),
        forall|k: int| 0 <= k < durations.len() ==> durations[k] >= 1,
    ensures
        end_frame(durations, i) < end_frame(durations, j),
{
    lemma_end_frame_mono(durations, i, j - 1);
    lemma_total_take(durations, j);
    assert(durations[j] >= 1);
}

/// Where a looping switcher with positive durations stands after frame `f`:
/// the current loop started at a multiple `m` of the loop length, and the
/// frames elapsed since then fall within the span of the active variant.
pub proof fn lemma_run_shape(durations: Seq<u32>, schedule: Seq<u32>, f: nat) -> (m: nat)
    requires
        durations.len() >= 1,
        schedule.len() == durations.len(),
        forall|i: int| 0 <= i < schedule.len() ==> schedule[i] == end_frame(durations, i),
        forall|i: int| 0 <= i < durations.len() ==> durations[i] >= 1,
        durations.len() <= u32::MAX,
        total(durations) <= u32::MAX,
        f <= u32::MAX,
    ensures
        ({
            let p = run(schedule, true, start(), f);
            &&& p.last_frame == f
            &&& p.active < schedule.len()
            &&& p.loop_offset == m * total(durations)
            &&& p.loop_offset <= f < p.loop_offset + schedule[p.active as int]
            &&& (p.active == 0 || schedule[p.active - 1] <= f - p.loop_offset)
        }),
    decreases f,
{
    let c = total(durations);
    let n = schedule.len();
    lemma_total_take(durations, 0);
    assert(durations.take(0) =~= Seq::<u32>::empty());
    assert(total(durations.take(0)) == 0);
    assert(durations[0] >= 1);
    assert(schedule[0] == end_frame(durations, 0));
    assert(schedule[0] >= 1);
    if f == 0 {
        assert(run(schedule, true, start(), f) == step(schedule, true, start(), 0));
        0
    } else {
        let m = lemma_run_shape(durations, schedule, (f - 1) as nat);
        let p = run(schedule, true, start(), (f - 1) as nat);
        assert(run(schedule, true, start(), f) == step(schedule, true, p, f as u32));
        let a = p.active as int;
        let lo = p.loop_offset as int;
        lemma_end_frame_mono(durations, a, n - 1);
        lemma_end_frame_last(durations);
        if f >= schedule[a] + lo {
            if a + 1 >= n {
                assert(schedule[a] == c);
                assert((m + 1) * c == m * c + c) by (nonlinear_arith);
                m + 1
            } else {
                lemma_total_take(durations, a + 1);
                assert(durations[a + 1] >= 1);
                assert(schedule[a + 1] == end_frame(durations, a + 1));
                assert(schedule[a] == end_frame(durations, a));
                assert(schedule[a + 1] > schedule[a]);
                m
            }
        } else {
            m
        }
    }
}

/// A looping switcher over positive durations is back on its first variant
/// at every multiple `k` of its loop length, and its loop started there.
pub proof fn law_loop_restarts(durations: Seq<u32>, schedule: Seq<u32>, k: nat)
    requires
        durations.len() >= 1,
        schedule.len() == durations.len(),
        forall|i: int| 0 <= i < schedule.len() ==> schedule[i] == end_frame(durations, i),
        forall|i: int| 0 <= i < durations.len() ==> durations[i] >= 1,
        durations.len() <= u32::MAX,
        total(durations) <= u32::MAX,
        k * total(durations) <= u32::MAX,
    ensures
        run(schedule, true, start(), (k * total(durations)) as nat).active == 0,
        run(schedule, true, start(), (k * total(durations)) as nat).loop_offset == k * total(
            durations,
        ),
{
    let c = total(durations);
    lemma_end_frame_last(durations);
    lemma_end_frame_mono(durations, 0, durations.len() - 1);
    lemma_total_take(durations, 0);
    assert(durations.take(0) =~= Seq::<u32>::empty());
    assert(total(durations.take(0)) == 0);
    assert(durations[0] >= 1);
    assert(end_frame(durations, 0) == durations[0]);
    assert(c >= 1);
    assert(k * c >= 0) by (nonlinear_arith)
        requires
            c >= 1,
            k >= 0,
    ;
    let f = (k * c) as nat;
    let m = lemma_run_shape(durations, schedule, f);
    let p = run(schedule, true, start(), f);
    let a = p.active as int;
    lemma_end_frame_mono(durations, a, durations.len() - 1);
    assert(m == k) by (nonlinear_arith)
        requires
            c >= 1,
            m * c <= k * c,
            k * c < m * c + c,
    {
        if m > k {
            assert(m * c >= (k + 1) * c);
        } else if m < k {
            assert(k * c >= (m + 1) * c);
        }
    };
    if a > 0 {
        lemma_end_frame_mono(durations, 0, a - 1);
    }
}

/// Combinator that shows its variants in turn: the first for its duration,
/// then the next, and so on; with `looping`, it starts over after the last.
#[derive(Clone, Debug)]
pub struct Switcher<T> {
    /// The variants, in the order they are shown.
    pub variants: Vec<T>,
    /// Index of the variant shown.
    pub active: u32,
    /// End frame of each variant within a loop.
    pub schedule: Vec<u32>,
    /// The last frame seen.
    pub last_frame: u32,
    /// Whether to start over after the last variant.
    pub looping: bool,
    /// The frame at which the current loop started.
    pub loop_offset: u32,
}

impl<T> Switcher<T> {
    /// One end frame per variant, at least one variant, and a valid active index.
    pub open spec fn wf(&self) -> bool {
        &&& self.variants@.len() == self.schedule@.len()
        &&& self.variants@.len() >= 1
        &&& self.active < self.variants@.len()
        &&& self.variants@.len() <= u32::MAX
    }

    pub open spec fn phase(&self) -> Phase {
        Phase { active: self.active, last_frame: self.last_frame, loop_offset: self.loop_offset }
    }

    /// A switcher over the given (duration, variant) pairs, on the first
    /// variant at frame 0, looping.
    pub fn new(frames: Vec<(u32, T)>) -> (s: Switcher<T>)
        requires
            1 <= frames@.len() <= u32::MAX,
            total(durations_of(frames@)) <= u32::MAX,
        ensures
            s.wf(),
            s.variants@.len() == frames@.len(),
            forall|i: int| 0 <= i < frames@.len() ==> s.variants@[i] == frames@[i].1,
            forall|i: int|
                0 <= i < frames@.len() ==> s.schedule@[i] == end_frame(durations_of(frames@), i),
            forall|i: int, j: int|
                0 <= i <= j < frames@.len() ==> s.schedule@[i] <= s.schedule@[j],
            (forall|k: int| 0 <= k < frames@.len() ==> frames@[k].0 >= 1) ==> forall|i: int, j: int|
                0 <= i < j < frames@.len() ==> s.schedule@[i] < s.schedule@[j],
            s.active == 0,
            s.last_frame == 0,
            s.loop_offset == 0,
            s.looping,
    {
        let ghost orig = frames@;
        let ghost durations = durations_of(frames@);
        let ghost n = frames@.len();
        let mut pending = frames;
        // Move the pairs into `reversed` back to front, then take them out again in order.
        let mut reversed: Vec<(u32, T)> = Vec::new();
        while pending.len() > 0
            invariant
                pending@.len() + reversed@.len() == n,
                n == orig.len(),
                forall|i: int| 0 <= i < pending@.len() ==> pending@[i] == orig[i],
                forall|j: int| 0 <= j < reversed@.len() ==> reversed@[j] == orig[n - 1 - j],
            decreases pending.len(),
        {
            let p = pending.pop().unwrap();
            reversed.push(p);
        }
        let mut variants: Vec<T> = Vec::new();
        let mut schedule: Vec<u32> = Vec::new();
        let mut acc: u32 = 0;
        while reversed.len() > 0
            invariant
                variants@.len() + reversed@.len() == n,
                schedule@.len() == variants@.len(),
                forall|j: int| 0 <= j < reversed@.len() ==> reversed@[j] == orig[n - 1 - j],
                forall|i: int| 0 <= i < variants@.len() ==> variants@[i] == orig[i].1,
                forall|i: int| 0 <= i < variants@.len() ==> schedule@[i] == end_frame(durations, i),
                acc == total(durations.take(variants@.len() as int)),
                durations == durations_of(orig),
                n == orig.len(),
                1 <= n <= u32::MAX,
                total(durations) <= u32::MAX,
            decreases reversed.len(),
        {
            let (dur, value) = reversed.pop().unwrap();
            proof {
                let k = variants@.len() as int;
                assert(durations[k] == dur);
                lemma_total_take(durations, k);
                lemma_total_prefix(durations, k + 1);
            }
            acc = acc + dur;
            variants.push(value);
            schedule.push(acc);
        }
        proof {
            assert forall|i: int, j: int| 0 <= i <= j < n implies schedule@[i] <= schedule@[j] by {
                lemma_end_frame_mono(durations, i, j);
            }
            if forall|k: int| 0 <= k < n ==> orig[k].0 >= 1 {
                assert forall|i: int, j: int| 0 <= i < j < n implies schedule@[i] < schedule@[j] by {
                    assert forall|k: int| 0 <= k < durations.len() implies durations[k] >= 1 by {
                        assert(durations[k] == orig[k].0);
                    }
                    lemma_end_frame_strict(durations, i, j);
                }
            }
        }
        Switcher { variants, active: 0, schedule, last_frame: 0, looping: true, loop_offset: 0 }
    }

    /// The variant shown.
    pub fn current(&self) -> (r: &T)
        requires
            self.wf(),
        ensures
            *r == self.variants@[self.active as int],
    {
        &self.variants[self.active as usize]
    }

    /// The variant shown, to change in place.
    pub fn current_mut(&mut self) -> (r: &mut T)
        requires
            old(self).wf(),
        ensures
            *r == old(self).variants@[old(self).active as int],
            final(self).variants@ == old(self).variants@.update(
                old(self).active as int,
                *final(r),
            ),
            final(self).schedule == old(self).schedule,
            final(self).active == old(self).active,
            final(self).last_frame == old(self).last_frame,
            final(self).looping == old(self).looping,
            final(self).loop_offset == old(self).loop_offset,
    {
        &mut self.variants[self.active as usize]
    }

    /// Length of one loop: the frame at which the last variant ends.
    pub fn cycle_len(&self) -> (n: u32)
        requires
            self.wf(),
        ensures
            n == self.schedule@.last(),
    {
        self.schedule[self.schedule.len() - 1]
    }
}

/// The states of a switcher after animating frames `0, 1, ..., f` in order,
/// each related to the one before by `animated`, follow `run`.
pub proof fn lemma_states_follow_run<T: Animatable>(states: Seq<Switcher<T>>, f: nat)
    requires
        f + 1 < states.len(),
        f <= u32::MAX,
        forall|g: int|
            0 <= g < states.len() - 1 ==> (#[trigger] states[g]).animated(g as u32, states[g + 1]),
    ensures
        states[f as int + 1].phase() == run(states[0].schedule@, states[0].looping, states[0].phase(), f),
        states[f as int + 1].schedule == states[0].schedule,
        states[f as int + 1].looping == states[0].looping,
    decreases f,
{
    if f > 0 {
        lemma_states_follow_run(states, (f - 1) as nat);
    }
    assert(states[f as int].animated(f as u32, states[f as int + 1]));
}

/// A looping switcher built over positive durations, animated once for each
/// frame `0, 1, ..., k * cycle` in order, is back on its first variant after
/// frame `k * cycle`, with its loop started there.
pub proof fn law_animate_restarts<T: Animatable>(
    durations: Seq<u32>,
    states: Seq<Switcher<T>>,
    k: nat,
)
    requires
        durations.len() >= 1,
        durations.len() <= u32::MAX,
        forall|i: int| 0 <= i < durations.len() ==> durations[i] >= 1,
        total(durations) <= u32::MAX,
        k * total(durations) <= u32::MAX,
        states.len() == k * total(durations) + 2,
        states[0].phase() == start(),
        states[0].looping,
        states[0].schedule@.len() == durations.len(),
        forall|i: int|
            0 <= i < durations.len() ==> states[0].schedule@[i] == end_frame(durations, i),
        forall|g: int|
            0 <= g < states.len() - 1 ==> (#[trigger] states[g]).animated(g as u32, states[g + 1]),
    ensures
        states[k * total(durations) + 1].active == 0,
        states[k * total(durations) + 1].loop_offset == k * total(durations),
{
    let c = total(durations);
    lemma_total_nonneg(durations);
    assert(k * c >= 0) by (nonlinear_arith)
        requires
            c >= 0,
    ;
    let f = (states.len() - 2) as nat;
    assert(f == k * c);
    lemma_states_follow_run(states, f);
    law_loop_restarts(durations, states[0].schedule@, k);
}

impl<T: Animatable> Animatable for Switcher<T> {
    /// Well formed, and every variant ready to be animated.
    open spec fn ready(&self) -> bool {
        &&& self.wf()
        &&& forall|i: int| 0 <= i < self.variants@.len() ==> (#[trigger] self.variants@[i]).ready()
    }

    /// The phase moves on by `step`; on a frame not earlier than the last one
    /// seen, the variant shown is animated and the others stay as they are;
    /// on an earlier frame, nothing changes.
    open spec fn animated(&self, frame: u32, next: Self) -> bool {
        &&& next.phase() == step(self.schedule@, self.looping, self.phase(), frame)
        &&& next.schedule == self.schedule
        &&& next.looping == self.looping
        &&& next.variants@.len() == self.variants@.len()
        &&& if frame < self.last_frame {
            next.variants@ == self.variants@
        } else {
            &&& self.variants@[self.active as int].animated(
                frame,
                next.variants@[self.active as int],
            )
            &&& forall|i: int|
                0 <= i < self.variants@.len() && i != self.active
                    ==> #[trigger] next.variants@[i] == self.variants@[i]
        }
    }

    /// Animates the variant shown, then moves on along the schedule. An
    /// earlier frame than the last one seen is a replay, and changes nothing.
    fn animate(&mut self, frame: u32)
        ensures
            frame < old(self).last_frame ==> *final(self) == *old(self),
            final(self).wf(),
    {
        if frame < self.last_frame {
            return;
        }
        assert(self.variants@[self.active as int].ready());
        self.current_mut().animate(frame);
        let border: u64 = self.schedule[self.active as usize] as u64 + self.loop_offset as u64;
        if frame as u64 >= border {
            if self.active as usize >= self.variants.len() - 1 {
                if self.looping {
                    self.active = 0;
                    self.loop_offset = frame;
                } else {
                    self.active = (self.variants.len() - 1) as u32;
                }
            } else {
                self.active = self.active + 1;
            }
        }
        self.last_frame = frame;
    }
}

} // verus!
