//! The controller: owns the character and its state machine, drains wall-clock time
//! in fixed steps, and composes frames into the back buffer.
use crate::anim::{advance_spec, drawn_frame, AnimError, AnimManager, CatalogView};
use crate::frame::Frame;
use crate::present::BufferSelector;
use crate::states::{
    behavior_step, entered, Behavior, Character, Environment, StateMachine, Target, MICROS_PER_PIXEL,
};
use crate::timestep::{substeps, timestep_plan};
use vstd::prelude::*;

verus! {

/// The controller as plain values.
pub struct DigitView {
    pub behavior: Behavior,
    pub anims: CatalogView,
    pub x: int,
    pub y: int,
    pub front: nat,
    pub scale: nat,
}

/// `b` is a possible state after one simulation step of `delta` microseconds from `a`:
/// the behaviour steps first, then the animation clock runs.
pub open spec fn digit_step(a: DigitView, b: DigitView, delta: nat, env: Environment) -> bool {
    &&& exists|mid: CatalogView| #[trigger] behavior_step(a.behavior, a.anims, a.x, delta, env, b.behavior, mid, b.x)
        && b.anims == advance_spec(mid, delta)
    &&& b.y == a.y
    &&& b.front == a.front
    &&& b.scale == a.scale
}

/// `trace` is a run of the steps of `plan`, in order: it starts at its first state,
/// and each step leads from one state of the trace to the next.
pub open spec fn digit_run(trace: Seq<DigitView>, plan: Seq<nat>, env: Environment) -> bool {
    &&& trace.len() == plan.len() + 1
    &&& forall|i: int| 0 <= i < plan.len() ==> digit_step(#[trigger] trace[i], trace[i + 1], plan[i], env)
}

/// `s` with the colour channels of every fully transparent pixel set to zero.
pub open spec fn scrubbed(s: Seq<u8>) -> Seq<u8> {
    Seq::new(s.len(), |k: int| if k % 4 != 3 && s[k - k % 4 + 3] == 0 { 0u8 } else { s[k] })
}

/// What a composed frame holds: the catalogue's drawing over a cleared buffer of the
/// old size, then scrubbed.
pub open spec fn composed(c: CatalogView, width: nat, height: nat, len: nat) -> (nat, nat, Seq<u8>) {
    let d = drawn_frame(c, width, height, Seq::new(len, |_k: int| 0u8));
    (d.0, d.1, scrubbed(d.2))
}

/// `x` micro-pixels as a whole window coordinate: pixels truncated toward zero, then
/// snapped toward zero to a multiple of the scale, so the window moves in whole
/// scaled pixels.
pub open spec fn snapped(x: int, scale: nat) -> int {
    let unit = scale * MICROS_PER_PIXEL;
    if x >= 0 {
        (x / unit) * scale
    } else {
        -(((-x) / unit) * scale)
    }
}

/// The character, its behaviour, and which of the two buffers is shown.
pub struct Digit {
    sm: StateMachine,
    ch: Character,
    selector: BufferSelector,
    scale: u32,
}

impl View for Digit {
    type V = DigitView;

    closed spec fn view(&self) -> DigitView {
        DigitView {
            behavior: self.sm.current_spec()->Some_0,
            anims: self.ch.anims@,
            x: self.ch.x as int,
            y: self.ch.y as int,
            front: self.selector.front_spec(),
            scale: self.scale as nat,
        }
    }
}

impl Digit {
    /// Started, with a consistent character and buffer selector.
    pub closed spec fn wf(&self) -> bool {
        &&& self.sm.current_spec() is Some
        &&& self.ch.wf()
        &&& self.selector.wf()
        &&& self.scale >= 1
    }

    /// The animations hold the ready, walking and dancing ones.
    pub open spec fn has_animations(anims: CatalogView) -> bool {
        &&& anims.names.contains(crate::states::ready_name())
        &&& anims.names.contains(crate::states::walking_name())
        &&& anims.names.contains(crate::states::dancing_name())
    }

    /// Builds the character at pixel `(x, y)` and starts it idling; the first (empty)
    /// frame is published so the presentation side shows something. Fails when one
    /// of the ready, walking and dancing animations is missing.
    pub fn new(anims: AnimManager, x: i32, y: i32, scale: u32, env: Environment) -> (r: Result<Digit, AnimError>)
        requires
            anims.wf(),
            scale >= 1,
        ensures
            r is Ok <==> Digit::has_animations(anims@),
            r matches Err(e) ==> e == AnimError::UnknownAnimation,
            r matches Ok(d) ==> {
                &&& d.wf()
                &&& entered(Target::Idle, anims@, x * MICROS_PER_PIXEL, env, d@.anims, d@.behavior)
                &&& d@.x == x * MICROS_PER_PIXEL
                &&& d@.y == y * MICROS_PER_PIXEL
                &&& d@.front == 1
                &&& d@.scale == scale
            },
    {
        if !anims.contains("ready") || !anims.contains("walking") || !anims.contains("dancing") {
            return Err(AnimError::UnknownAnimation);
        }
        let mut ch = Character {
            anims,
            x: (x as i64) * MICROS_PER_PIXEL,
            y: (y as i64) * MICROS_PER_PIXEL,
        };
        let mut sm = StateMachine::new();
        sm.init(Target::Idle, &mut ch, env);
        let mut selector = BufferSelector::new();
        selector.publish();
        Ok(Digit { sm, ch, selector, scale })
    }

    /// One simulation step of `delta` microseconds: the behaviour, then the animation.
    pub fn update(&mut self, delta: u64, env: Environment)
        requires
            old(self).wf(),
        ensures
            final(self).wf(),
            digit_step(old(self)@, final(self)@, delta as nat, env),
    {
        self.sm.update(&mut self.ch, delta, env);
        let ghost mid = self.ch.anims@;
        self.ch.anims.update(delta);
        proof {
            assert(behavior_step(old(self)@.behavior, old(self)@.anims, old(self)@.x, delta as nat, env, self@.behavior, mid, self@.x));
        }
    }

    /// Drains `elapsed` microseconds of wall-clock time: one update for each step of
    /// `substeps(elapsed)`, in order, all with the surroundings `env` observed at the
    /// start of the tick. Returns the steps taken.
    pub fn tick(&mut self, elapsed: u64, env: Environment) -> (r: Vec<u64>)
        requires
            old(self).wf(),
        ensures
            final(self).wf(),
            r@.map_values(|d: u64| d as nat) == substeps(elapsed as nat),
            exists|trace: Seq<DigitView>| {
                &&& #[trigger] digit_run(trace, substeps(elapsed as nat), env)
                &&& trace[0] == old(self)@
                &&& trace.last() == final(self)@
            },
    {
        let plan = timestep_plan(elapsed);
        let ghost steps = plan@.map_values(|d: u64| d as nat);
        let mut i: usize = 0;
        let ghost mut trace: Seq<DigitView> = seq![self@];
        while i < plan.len()
            invariant
                self.wf(),
                steps == plan@.map_values(|d: u64| d as nat),
                0 <= i <= plan@.len(),
                digit_run(trace, steps.subrange(0, i as int), env),
                trace[0] == old(self)@,
                trace.last() == self@,
            decreases plan@.len() - i,
        {
            let ghost before = trace;
            self.update(plan[i], env);
            proof {
                trace = trace.push(self@);
                let done = steps.subrange(0, i as int + 1);
                assert forall|j: int| 0 <= j < done.len() implies digit_step(#[trigger] trace[j], trace[j + 1], done[j], env) by {
                    if j < i {
                        assert(trace[j] == before[j] && trace[j + 1] == before[j + 1]);
                        assert(done[j] == steps.subrange(0, i as int)[j]);
                    }
                }
            }
            i = i + 1;
        }
        proof {
            assert(steps.subrange(0, plan@.len() as int) =~= steps);
            assert(digit_run(trace, substeps(elapsed as nat), env));
        }
        plan
    }

    /// Composes the next frame into `back` (the buffer `back()` names): clears it to
    /// transparent black, draws the current animation frame, and zeroes the colour of
    /// every fully transparent pixel.
    pub fn render(&self, back: &mut Frame)
        requires
            self.wf(),
            old(back).wf(),
        ensures
            final(back).wf(),
            (final(back).width as nat, final(back).height as nat, final(back).buffer@)
                == composed(self@.anims, old(back).width as nat, old(back).height as nat, old(back).buffer@.len()),
    {
        let len = back.buffer.len();
        let mut k: usize = 0;
        while k < len
            invariant
                len == back.buffer@.len(),
                back.width == old(back).width,
                back.height == old(back).height,
                0 <= k <= len,
                forall|j: int| 0 <= j < k ==> back.buffer@[j] == 0u8,
            decreases len - k,
        {
            back.buffer.set(k, 0);
            k = k + 1;
        }
        proof {
            assert(back.buffer@ =~= Seq::new(len as nat, |_k: int| 0u8));
        }
        self.ch.anims.draw(back);
        let ghost drawn = back.buffer@;
        let ghost dw = back.width;
        let ghost dh = back.height;
        let total = back.buffer.len();
        proof {
            let p = (dw as int) * (dh as int);
            assert(total as int == p * 4);
        }
        let n = total / 4;
        let mut i: usize = 0;
        while i < n
            invariant
                drawn.len() == back.buffer@.len(),
                drawn.len() == n * 4,
                n * 4 <= usize::MAX,
                back.width == dw,
                back.height == dh,
                back.wf(),
                0 <= i <= n,
                forall|j: int| 0 <= j < i * 4 ==> back.buffer@[j] == #[trigger] scrubbed(drawn)[j],
                forall|j: int| i * 4 <= j < drawn.len() ==> back.buffer@[j] == drawn[j],
            decreases n - i,
        {
            let base = i * 4;
            if back.buffer[base + 3] == 0 {
                back.buffer.set(base, 0);
                back.buffer.set(base + 1, 0);
                back.buffer.set(base + 2, 0);
            }
            proof {
                assert forall|j: int| 0 <= j < (i + 1) * 4 implies back.buffer@[j] == #[trigger] scrubbed(drawn)[j] by {
                    if j >= i * 4 {
                        assert(j - j % 4 == i * 4);
                    }
                }
            }
            i = i + 1;
        }
        proof {
            assert(back.buffer@ =~= scrubbed(drawn));
        }
    }

    /// The index of the buffer being shown.
    pub fn front(&self) -> (r: u8)
        ensures
            r == self@.front,
    {
        self.selector.front()
    }

    /// The index of the buffer to compose into: never the one being shown.
    pub fn back(&self) -> (r: u8)
        requires
            self.wf(),
        ensures
            r < 2,
            r != self@.front,
    {
        self.selector.back()
    }

    /// Publishes the composed back buffer; returns the new front index, which the
    /// presentation side reads.
    pub fn publish(&mut self) -> (r: u8)
        requires
            old(self).wf(),
        ensures
            final(self).wf(),
            r == final(self)@.front,
            final(self)@ == (DigitView { front: (1 - old(self)@.front) as nat, ..old(self)@ }),
    {
        self.selector.publish()
    }

    /// The character's position in micro-pixels.
    pub fn position(&self) -> (r: (i64, i64))
        ensures
            r.0 == self@.x,
            r.1 == self@.y,
    {
        (self.ch.x, self.ch.y)
    }

    /// Where the window goes: the position in whole pixels, snapped to the scale.
    pub fn window_position(&self) -> (r: (i64, i64))
        requires
            self.wf(),
        ensures
            r.0 == snapped(self@.x, self@.scale),
            r.1 == snapped(self@.y, self@.scale),
    {
        (snap(self.ch.x, self.scale), snap(self.ch.y, self.scale))
    }

    /// The animations.
    pub fn anims(&self) -> (r: &AnimManager)
        ensures
            r@ == self@.anims,
    {
        &self.ch.anims
    }

    /// The active behaviour.
    pub fn behavior(&self) -> (r: Behavior)
        requires
            self.wf(),
        ensures
            r == self@.behavior,
    {
        match self.sm.current() {
            Some(b) => b,
            None => {
                proof {
                    assert(false);
                }
                Behavior::Walk(crate::states::WalkState { walking_right: true, destination: 0 })
            },
        }
    }
}

/// `x` micro-pixels in whole pixels, snapped toward zero to a multiple of `scale`.
fn snap(x: i64, scale: u32) -> (r: i64)
    requires
        scale >= 1,
    ensures
        r == snapped(x as int, scale as nat),
{
    proof {
        assert((scale as int) * MICROS_PER_PIXEL >= MICROS_PER_PIXEL) by (nonlinear_arith) requires scale >= 1;
        assert((scale as int) * MICROS_PER_PIXEL <= u64::MAX) by (nonlinear_arith) requires scale <= u32::MAX;
    }
    let unit: u64 = (scale as u64) * (MICROS_PER_PIXEL as u64);
    let negative = x < 0;
    let magnitude: u64 = if negative { (0i128 - x as i128) as u64 } else { x as u64 };
    let q = magnitude / unit;
    proof {
        let m = magnitude as int;
        let u = unit as int;
        vstd::arithmetic::div_mod::lemma_fundamental_div_mod(m, u);
        vstd::arithmetic::div_mod::lemma_mod_bound(m, u);
        vstd::arithmetic::div_mod::lemma_div_pos_is_pos(m, u);
        assert((q as int) * (scale as int) * MICROS_PER_PIXEL <= m) by (nonlinear_arith)
            requires m == u * (q as int) + m % u, m % u >= 0, u == (scale as int) * MICROS_PER_PIXEL;
        assert((q as int) * (scale as int) <= m) by (nonlinear_arith)
            requires (q as int) * (scale as int) * MICROS_PER_PIXEL <= m, q >= 0, scale >= 1;
        assert((q as int) * (scale as int) >= 0) by (nonlinear_arith) requires q >= 0, scale >= 1;
    }
    let t = q * (scale as u64);
    if negative {
        (0i128 - t as i128) as i64
    } else {
        t as i64
    }
}

} // verus!
