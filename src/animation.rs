use crate::types::Rect;
use vstd::arithmetic::div_mod::lemma_mod_multiples_vanish;
use vstd::prelude::*;

verus! {

/// Sum of a sequence of frame durations.
pub open spec fn sum_times(ts: Seq<usize>) -> nat
    decreases ts.len(),
{
    if ts.len() == 0 {
        0
    } else {
        (sum_times(ts.drop_last()) + ts.last()) as nat
    }
}

/// Index of the first frame, from `i` on, whose end boundary (the sum of the
/// durations up to and including it) lies after `rem`; frame 0 when none does.
pub open spec fn frame_from(ts: Seq<usize>, rem: int, i: int) -> int
    decreases ts.len() - i,
{
    if i < 0 || i >= ts.len() {
        0
    } else if rem < sum_times(ts.take(i + 1)) {
        i
    } else {
        frame_from(ts, rem, i + 1)
    }
}

pub proof fn lemma_sum_take_succ(s: Seq<usize>, i: int)
    requires
        0 <= i < s.len(),
    ensures
        sum_times(s.take(i + 1)) == sum_times(s.take(i)) + s[i],
{
    assert(s.take(i + 1).drop_last() =~= s.take(i));
}

pub proof fn lemma_sum_prefix_le(s: Seq<usize>, i: int)
    requires
        0 <= i <= s.len(),
    ensures
        sum_times(s.take(i)) <= sum_times(s),
    decreases s.len() - i,
{
    if i == s.len() {
        assert(s.take(i) =~= s);
    } else {
        lemma_sum_take_succ(s, i);
        lemma_sum_prefix_le(s, i + 1);
    }
}

/// A timed sequence of frames (areas of a sprite sheet), each shown for a
/// number of ticks, from a start tick on; it either loops or ends.
pub struct Animation {
    frame_rects: Vec<Rect>,
    frame_times: Vec<usize>,
    start_time: usize,
    total_time: usize,
    loops: bool,
}

impl Animation {
    pub closed spec fn rects(&self) -> Seq<Rect> {
        self.frame_rects@
    }

    pub closed spec fn times(&self) -> Seq<usize> {
        self.frame_times@
    }

    pub closed spec fn start(&self) -> nat {
        self.start_time as nat
    }

    pub closed spec fn total(&self) -> nat {
        self.total_time as nat
    }

    pub closed spec fn looping(&self) -> bool {
        self.loops
    }

    /// One duration per frame, and the total is their sum.
    pub open spec fn wf(&self) -> bool {
        &&& self.rects().len() == self.times().len()
        &&& self.total() == sum_times(self.times())
    }

    /// Ticks since the start, zero before it.
    pub open spec fn elapsed(&self, now: nat) -> nat {
        if now >= self.start() {
            (now - self.start()) as nat
        } else {
            0
        }
    }

    /// Position within the sequence: the elapsed time, taken modulo the total
    /// when the animation loops.
    pub open spec fn position(&self, now: nat) -> nat {
        if self.looping() {
            self.elapsed(now) % self.total()
        } else {
            self.elapsed(now)
        }
    }

    pub open spec fn frame_at(&self, now: nat) -> Rect {
        self.rects()[frame_from(self.times(), self.position(now) as int, 0)]
    }

    pub open spec fn is_done(&self, now: nat) -> bool {
        !self.looping() && self.elapsed(now) >= self.total()
    }

    /// `self` is `old` started again at tick `now`.
    pub open spec fn restarted_from(&self, old: Animation, now: nat) -> bool {
        &&& self.rects() == old.rects()
        &&& self.times() == old.times()
        &&& self.total() == old.total()
        &&& self.looping() == old.looping()
        &&& self.start() == now
    }

    pub fn new(frame_rects: Vec<Rect>, frame_times: Vec<usize>, start_time: usize, loops: bool) -> (r:
        Self)
        requires
            frame_rects@.len() == frame_times@.len(),
            sum_times(frame_times@) <= usize::MAX,
        ensures
            r.wf(),
            r.rects() == frame_rects@,
            r.times() == frame_times@,
            r.start() == start_time,
            r.looping() == loops,
    {
        let mut total: usize = 0;
        let mut i: usize = 0;
        while i < frame_times.len()
            invariant
                i <= frame_times@.len(),
                total == sum_times(frame_times@.take(i as int)),
                sum_times(frame_times@) <= usize::MAX,
            decreases frame_times@.len() - i,
        {
            proof {
                lemma_sum_take_succ(frame_times@, i as int);
                lemma_sum_prefix_le(frame_times@, i + 1);
            }
            total = total + frame_times[i];
            i = i + 1;
        }
        assert(frame_times@.take(i as int) =~= frame_times@);
        Animation { frame_rects, frame_times, start_time, total_time: total, loops }
    }

    /// The frame shown at tick `now`.
    pub fn current_frame(&self, now: usize) -> (r: Rect)
        requires
            self.wf(),
            self.total() > 0,
        ensures
            r == self.frame_at(now as nat),
    {
        let e = now.saturating_sub(self.start_time);
        let rem = if self.loops {
            e % self.total_time
        } else {
            e
        };
        let ghost ts = self.frame_times@;
        assert(ts.len() > 0) by {
            if ts.len() == 0 {
                assert(sum_times(ts) == 0);
            }
        }
        let mut frame_index: usize = 0;
        let mut tot: usize = 0;
        let mut i: usize = 0;
        while i < self.frame_times.len()
            invariant_except_break
                i <= ts.len(),
                ts == self.frame_times@,
                self.wf(),
                tot == sum_times(ts.take(i as int)),
                frame_from(ts, rem as int, 0) == frame_from(ts, rem as int, i as int),
                frame_index == 0,
                ts.len() > 0,
            ensures
                frame_index == frame_from(ts, rem as int, 0),
                frame_index < ts.len(),
            decreases ts.len() - i,
        {
            proof {
                lemma_sum_take_succ(ts, i as int);
                lemma_sum_prefix_le(ts, i + 1);
            }
            tot = tot + self.frame_times[i];
            if rem < tot {
                frame_index = i;
                break ;
            }
            i = i + 1;
        }
        self.frame_rects[frame_index]
    }

    /// Sum of the frame durations.
    pub fn total_time(&self) -> (r: usize)
        ensures
            r == self.total(),
    {
        self.total_time
    }

    /// Whether a one-shot animation has run its full length.
    pub fn done(&self, now: usize) -> (r: bool)
        ensures
            r == self.is_done(now as nat),
    {
        !self.loops && now.saturating_sub(self.start_time) >= self.total_time
    }
}

/// A one-shot animation is not done before its total time has elapsed, and is
/// done from then on.
pub proof fn lemma_done_exactly_after_total(a: Animation, now: nat)
    requires
        !a.looping(),
        now >= a.start(),
    ensures
        a.is_done(now) <==> now >= a.start() + a.total(),
{
}

/// A looping animation shows the same frame a whole number of periods later.
pub proof fn lemma_looping_frames_periodic(a: Animation, now: nat, k: nat)
    requires
        a.looping(),
        a.total() > 0,
        now >= a.start(),
    ensures
        a.frame_at(now) == a.frame_at(now + k * a.total()),
{
    let e = (now - a.start()) as int;
    assert(a.elapsed(now + k * a.total()) == e + k * a.total()) by (nonlinear_arith)
        requires
            now >= a.start(),
            e == now - a.start(),
            a.elapsed(now + k * a.total()) == if now + k * a.total() >= a.start() {
                now + k * a.total() - a.start()
            } else {
                0
            },
            k * a.total() >= 0,
    ;
    lemma_mod_multiples_vanish(k as int, e, a.total() as int);
}

/// Whether transition `t` leaves state `cur` on event `label`.
pub open spec fn transition_matches(t: (usize, usize, String), cur: nat, label: Seq<char>) -> bool {
    t.0 == cur && t.2@ == label
}

/// Index of the first transition, from `i` on, that leaves `cur` on `label`.
pub open spec fn first_match_from(
    table: Seq<(usize, usize, String)>,
    cur: nat,
    label: Seq<char>,
    i: int,
) -> Option<int>
    decreases table.len() - i,
{
    if i < 0 || i >= table.len() {
        None
    } else if transition_matches(table[i], cur, label) {
        Some(i)
    } else {
        first_match_from(table, cur, label, i + 1)
    }
}

pub open spec fn first_match(table: Seq<(usize, usize, String)>, cur: nat, label: Seq<char>) -> Option<
    int,
> {
    first_match_from(table, cur, label, 0)
}

/// The first match is a match, and none comes before it; with no match at all
/// there is none.
pub proof fn lemma_first_match_from(
    table: Seq<(usize, usize, String)>,
    cur: nat,
    label: Seq<char>,
    i: int,
)
    requires
        0 <= i <= table.len(),
    ensures
        first_match_from(table, cur, label, i) matches Some(k) ==> i <= k < table.len()
            && transition_matches(table[k], cur, label) && forall|j: int|
            i <= j < k ==> !transition_matches(#[trigger] table[j], cur, label),
        first_match_from(table, cur, label, i) is None ==> forall|j: int|
            i <= j < table.len() ==> !transition_matches(#[trigger] table[j], cur, label),
    decreases table.len() - i,
{
    if i < table.len() {
        lemma_first_match_from(table, cur, label, i + 1);
    }
}

/// State machine over a set of animations. Transitions are (source, destination,
/// event label); the empty label marks a transition taken on its own when the
/// current animation is done. The first matching transition, in table order,
/// wins.
pub struct AnimationSM {
    animations: Vec<Animation>,
    transitions: Vec<(usize, usize, String)>,
    start_index: usize,
    current_anim: usize,
}

impl AnimationSM {
    pub closed spec fn anims(&self) -> Seq<Animation> {
        self.animations@
    }

    pub closed spec fn table(&self) -> Seq<(usize, usize, String)> {
        self.transitions@
    }

    pub closed spec fn start(&self) -> nat {
        self.start_index as nat
    }

    pub closed spec fn current(&self) -> nat {
        self.current_anim as nat
    }

    /// Every index names an animation, and every animation is well formed.
    pub open spec fn wf(&self) -> bool {
        &&& self.start() < self.anims().len()
        &&& self.current() < self.anims().len()
        &&& forall|k: int|
            0 <= k < self.table().len() ==> (#[trigger] self.table()[k]).0 < self.anims().len()
                && self.table()[k].1 < self.anims().len()
        &&& forall|k: int| 0 <= k < self.anims().len() ==> (#[trigger] self.anims()[k]).wf()
    }

    /// `self` is `old` switched to animation `d`, restarted at `now`.
    pub open spec fn entered(&self, old: AnimationSM, d: nat, now: nat) -> bool {
        &&& d < old.anims().len()
        &&& self.anims().len() == old.anims().len()
        &&& forall|j: int|
            0 <= j < old.anims().len() && j != d ==> #[trigger] self.anims()[j] == old.anims()[j]
        &&& self.anims()[d as int].restarted_from(old.anims()[d as int], now)
        &&& self.current() == d
        &&& self.table() == old.table()
        &&& self.start() == old.start()
    }

    /// `self` is `old` after the automatic check at tick `now`.
    pub open spec fn auto_stepped(&self, old: AnimationSM, now: nat) -> bool {
        if old.anims()[old.current() as int].is_done(now) {
            match first_match(old.table(), old.current(), Seq::empty()) {
                Some(k) => self.entered(old, old.table()[k].1 as nat, now),
                None => {
                    &&& self.anims() == old.anims()
                    &&& self.table() == old.table()
                    &&& self.start() == old.start()
                    &&& self.current() == old.start()
                },
            }
        } else {
            *self == old
        }
    }

    pub fn new(
        animations: Vec<Animation>,
        transitions: Vec<(usize, usize, String)>,
        start_index: usize,
    ) -> (r: Self)
        requires
            start_index < animations@.len(),
            forall|k: int|
                0 <= k < transitions@.len() ==> (#[trigger] transitions@[k]).0 < animations@.len()
                    && transitions@[k].1 < animations@.len(),
            forall|k: int| 0 <= k < animations@.len() ==> (#[trigger] animations@[k]).wf(),
        ensures
            r.wf(),
            r.anims() == animations@,
            r.table() == transitions@,
            r.start() == start_index,
            r.current() == start_index,
    {
        AnimationSM { animations, transitions, start_index, current_anim: start_index }
    }

    /// Runs the automatic check, then returns the current animation.
    pub fn current_anim(&mut self, now: usize) -> (r: &Animation)
        requires
            old(self).wf(),
        ensures
            final(self).wf(),
            final(self).auto_stepped(*old(self), now as nat),
            *r == final(self).anims()[final(self).current() as int],
    {
        self.update_anim(now);
        &self.animations[self.current_anim]
    }

    /// Index of the first transition from `cur` on `label`, from `i` on.
    fn find_transition(&self, cur: usize, label: &String) -> (r: Option<usize>)
        ensures
            r matches Some(k) ==> first_match(self.table(), cur as nat, label@) == Some(k as int),
            r is None ==> first_match(self.table(), cur as nat, label@) is None,
    {
        let ghost table = self.transitions@;
        let mut i: usize = 0;
        while i < self.transitions.len()
            invariant
                i <= table.len(),
                table == self.transitions@,
                first_match(table, cur as nat, label@) == first_match_from(
                    table,
                    cur as nat,
                    label@,
                    i as int,
                ),
            decreases table.len() - i,
        {
            if self.transitions[i].0 == cur && self.transitions[i].2 == *label {
                return Some(i);
            }
            i = i + 1;
        }
        None
    }

    /// Takes the first transition from the current state on `input`, restarting
    /// its destination at `now`; does nothing when there is none.
    pub fn input(&mut self, input: &str, now: usize)
        requires
            old(self).wf(),
        ensures
            final(self).wf(),
            match first_match(old(self).table(), old(self).current(), input@) {
                Some(k) => final(self).entered(*old(self), old(self).table()[k].1 as nat, now as nat),
                None => *final(self) == *old(self),
            },
            (forall|k: int|
                0 <= k < old(self).table().len() ==> !transition_matches(
                    #[trigger] old(self).table()[k],
                    old(self).current(),
                    input@,
                )) ==> *final(self) == *old(self),
    {
        proof {
            lemma_first_match_from(self.transitions@, self.current_anim as nat, input@, 0);
        }
        let label = input.to_owned();
        match self.find_transition(self.current_anim, &label) {
            Some(k) => {
                let dest = self.transitions[k].1;
                self.current_anim = dest;
                self.animations[dest].start_time = now;
            },
            None => {},
        }
    }

    /// When the current animation is done, takes the first automatic transition
    /// from it, restarting its destination at `now`, or falls back to the start
    /// state when there is none.
    fn update_anim(&mut self, now: usize)
        requires
            old(self).wf(),
        ensures
            final(self).wf(),
            final(self).auto_stepped(*old(self), now as nat),
    {
        proof {
            lemma_first_match_from(self.transitions@, self.current_anim as nat, Seq::empty(), 0);
        }
        if self.animations[self.current_anim].done(now) {
            let empty = String::new();
            assert(empty@ == Seq::<char>::empty());
            match self.find_transition(self.current_anim, &empty) {
                Some(k) => {
                    let dest = self.transitions[k].1;
                    self.current_anim = dest;
                    self.animations[dest].start_time = now;
                },
                None => {
                    self.current_anim = self.start_index;
                },
            }
        }
    }
}

} // verus!
