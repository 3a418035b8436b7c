//! The character's behaviours (idling and walking) and the state machine that runs them.
use crate::anim::{select_spec, AnimManager, CatalogView};
use rand::Rng;
use vstd::prelude::*;

verus! {

/// Micro-pixels in one pixel: positions are kept in micro-pixels so that a speed in
/// pixels per second times a step in microseconds is exact.
pub const MICROS_PER_PIXEL: i64 = 1_000_000;

/// Walking speed in pixels per second.
pub const SPEED: u64 = 600;

/// The shortest idle, in microseconds.
pub const IDLE_MIN: u64 = 1_000_000;

/// The idle durations drawn lie below `IDLE_MIN + IDLE_SPREAD`.
pub const IDLE_SPREAD: u64 = 10_000_000;

/// The horizontal extent, in pixels, of a monitor's work area (the monitor minus
/// the regions the system reserves, such as a taskbar).
#[derive(Debug, Clone, Copy, PartialEq, Eq, Structural)]
pub struct WorkArea {
    pub left: i32,
    pub right: i32,
}

/// What the world outside says at one step: the work area of the monitor holding
/// the character (if any) and whether media is playing.
#[derive(Debug, Clone, Copy, PartialEq, Eq, Structural)]
pub struct Environment {
    pub work_area: Option<WorkArea>,
    pub dancing: bool,
}

/// What every behaviour acts on: the animations and the position, in micro-pixels.
pub struct Character {
    pub anims: AnimManager,
    pub x: i64,
    pub y: i64,
}

/// The animation shown while idle.
pub open spec fn ready_name() -> Seq<char> {
    "ready"@
}

/// The animation shown while walking.
pub open spec fn walking_name() -> Seq<char> {
    "walking"@
}

/// The animation shown while idle and media plays.
pub open spec fn dancing_name() -> Seq<char> {
    "dancing"@
}

impl Character {
    /// A consistent catalogue that holds every animation the behaviours play.
    pub open spec fn wf(&self) -> bool {
        &&& self.anims.wf()
        &&& self.anims@.names.contains(ready_name())
        &&& self.anims@.names.contains(walking_name())
        &&& self.anims@.names.contains(dancing_name())
    }
}

/// The idle behaviour: how long it has lasted, how long it will last (both in
/// microseconds), and whether it shows the dancing animation.
#[derive(Debug, Clone, Copy, PartialEq, Eq, Structural)]
pub struct IdleState {
    pub elapsed: u64,
    pub duration: u64,
    pub dancing: bool,
}

/// The walking behaviour: the direction and the destination's x, in pixels.
#[derive(Debug, Clone, Copy, PartialEq, Eq, Structural)]
pub struct WalkState {
    pub walking_right: bool,
    pub destination: i32,
}

/// The one behaviour that is active.
#[derive(Debug, Clone, Copy, PartialEq, Eq, Structural)]
pub enum Behavior {
    Idle(IdleState),
    Walk(WalkState),
}

/// The behaviour a transition enters.
#[derive(Debug, Clone, Copy, PartialEq, Eq, Structural)]
pub enum Target {
    Idle,
    Walk,
}

/// A work area that holds at least one column.
pub open spec fn usable(a: WorkArea) -> bool {
    a.left <= a.right
}

/// `-1` for a negative value, `1` otherwise (zero counts as positive).
pub open spec fn sign(v: int) -> int {
    if v >= 0 {
        1
    } else {
        -1
    }
}

/// `b` and the catalogue `after` are what entering idle from catalogue `before`
/// gives: the ready animation from its first frame, a fresh clock, not dancing, and a
/// duration of at least `IDLE_MIN` and below `IDLE_MIN + IDLE_SPREAD`.
pub open spec fn idle_entered(before: CatalogView, after: CatalogView, b: Behavior) -> bool {
    &&& b matches Behavior::Idle(i)
    &&& i.elapsed == 0
    &&& !i.dancing
    &&& IDLE_MIN <= i.duration < IDLE_MIN + IDLE_SPREAD
    &&& after == select_spec(before, ready_name())
}

/// `b` and the catalogue `after` are what entering walk at `x` gives: with a usable
/// work area, a destination inside it, the walking animation facing the destination;
/// without one, idle.
pub open spec fn walk_entered(before: CatalogView, x: int, env: Environment, after: CatalogView, b: Behavior) -> bool {
    match env.work_area {
        Some(a) if usable(a) => {
            &&& b matches Behavior::Walk(w)
            &&& a.left <= w.destination <= a.right
            &&& w.walking_right == (x < w.destination * MICROS_PER_PIXEL)
            &&& after == CatalogView { flipped: !w.walking_right, ..select_spec(before, walking_name()) }
        },
        _ => idle_entered(before, after, b),
    }
}

/// Where a walk of `w` from `x` is after `delta` microseconds.
pub open spec fn walked_to(w: WalkState, x: int, delta: nat) -> int {
    if w.walking_right {
        x + SPEED * delta
    } else {
        x - SPEED * delta
    }
}

/// Whether a walk of `w` that has reached `x` has arrived (it passed the destination,
/// or reached it walking left).
pub open spec fn arrived(w: WalkState, x: int) -> bool {
    sign(w.destination * MICROS_PER_PIXEL - x) != if w.walking_right { 1int } else { -1int }
}

/// The idle clock after `delta` more microseconds (saturating).
pub open spec fn idle_clock(i: IdleState, delta: nat) -> nat {
    if i.elapsed + delta > u64::MAX {
        u64::MAX as nat
    } else {
        (i.elapsed + delta) as nat
    }
}

/// `(b2, a2, x2)` is a possible result of one update of behaviour `b` with catalogue
/// `a` at `x`: the deterministic part of each behaviour exactly, and for a
/// transition whatever the entered behaviour may draw.
pub open spec fn behavior_step(
    b: Behavior,
    a: CatalogView,
    x: int,
    delta: nat,
    env: Environment,
    b2: Behavior,
    a2: CatalogView,
    x2: int,
) -> bool {
    match b {
        Behavior::Idle(i) => {
            let e = idle_clock(i, delta);
            if e >= i.duration {
                x2 == x && walk_entered(a, x, env, a2, b2)
            } else {
                &&& x2 == x
                &&& b2 == Behavior::Idle(IdleState { elapsed: e as u64, duration: i.duration, dancing: env.dancing })
                &&& a2 == if env.dancing == i.dancing {
                    a
                } else if env.dancing {
                    select_spec(a, dancing_name())
                } else {
                    select_spec(a, ready_name())
                }
            }
        },
        Behavior::Walk(w) => {
            let x1 = walked_to(w, x, delta);
            if arrived(w, x1) {
                x2 == w.destination * MICROS_PER_PIXEL && idle_entered(a, a2, b2)
            } else {
                x2 == x1 && b2 == b && a2 == a
            }
        },
    }
}

/// Relies on `rand::thread_rng` and `Rng::gen_range` over the inclusive range
/// `0..=max`, which yields a uniformly drawn value of that range (it panics only
/// on an empty range, which an inclusive range from zero never is).
#[verifier::external_body]
fn random_up_to(max: u64) -> (r: u64)
    ensures
        r <= max,
{
    rand::thread_rng().gen_range(0..=max)
}

impl IdleState {
    /// Enters idle with the given duration: shows the ready animation from its first
    /// frame.
    pub fn begin(ch: &mut Character, duration: u64) -> (r: IdleState)
        requires
            old(ch).wf(),
        ensures
            final(ch).wf(),
            r == (IdleState { elapsed: 0, duration, dancing: false }),
            final(ch).anims@ == select_spec(old(ch).anims@, ready_name()),
            final(ch).x == old(ch).x,
            final(ch).y == old(ch).y,
    {
        let _ = ch.anims.set_anim("ready");
        IdleState { elapsed: 0, duration, dancing: false }
    }

    /// Enters idle for a duration drawn uniformly from one to eleven seconds.
    pub fn enter(ch: &mut Character) -> (r: Behavior)
        requires
            old(ch).wf(),
        ensures
            final(ch).wf(),
            idle_entered(old(ch).anims@, final(ch).anims@, r),
            final(ch).x == old(ch).x,
            final(ch).y == old(ch).y,
    {
        let duration = IDLE_MIN + random_up_to(IDLE_SPREAD - 1);
        Behavior::Idle(IdleState::begin(ch, duration))
    }
}

impl WalkState {
    /// Enters walk towards `area.left + offset`: shows the walking animation from its
    /// first frame, mirrored when the destination lies to the left.
    pub fn begin(ch: &mut Character, area: WorkArea, offset: u64) -> (r: WalkState)
        requires
            old(ch).wf(),
            usable(area),
            offset <= area.right - area.left,
        ensures
            final(ch).wf(),
            r.destination == area.left + offset,
            r.walking_right == (old(ch).x < r.destination * MICROS_PER_PIXEL),
            final(ch).anims@ == (CatalogView { flipped: !r.walking_right, ..select_spec(old(ch).anims@, walking_name()) }),
            final(ch).x == old(ch).x,
            final(ch).y == old(ch).y,
    {
        let destination = (area.left as i64 + offset as i64) as i32;
        let walking_right = ch.x < (destination as i64) * MICROS_PER_PIXEL;
        let _ = ch.anims.set_anim("walking");
        ch.anims.set_flipped(!walking_right);
        WalkState { walking_right, destination }
    }

    /// Enters walk: with a usable work area, towards a destination drawn uniformly
    /// from its columns; without one, enters idle instead.
    pub fn enter(ch: &mut Character, env: Environment) -> (r: Behavior)
        requires
            old(ch).wf(),
        ensures
            final(ch).wf(),
            walk_entered(old(ch).anims@, old(ch).x as int, env, final(ch).anims@, r),
            final(ch).x == old(ch).x,
            final(ch).y == old(ch).y,
    {
        match env.work_area {
            Some(area) => {
                if area.left <= area.right {
                    let span = (area.right as i64 - area.left as i64) as u64;
                    let offset = random_up_to(span);
                    Behavior::Walk(WalkState::begin(ch, area, offset))
                } else {
                    IdleState::enter(ch)
                }
            },
            None => IdleState::enter(ch),
        }
    }

    /// Walks on for `delta` microseconds. Once the destination has been passed (or
    /// reached while walking left) the character stands exactly on it and idles.
    pub fn update(self, ch: &mut Character, delta: u64, env: Environment) -> (r: Behavior)
        requires
            old(ch).wf(),
        ensures
            final(ch).wf(),
            behavior_step(Behavior::Walk(self), old(ch).anims@, old(ch).x as int, delta as nat, env, r, final(ch).anims@, final(ch).x as int),
            final(ch).y == old(ch).y,
    {
        let step: i128 = (SPEED as i128) * (delta as i128);
        let x1: i128 = if self.walking_right { ch.x as i128 + step } else { ch.x as i128 - step };
        proof {
            let d = self.destination as int;
            assert(i64::MIN <= d * MICROS_PER_PIXEL <= i64::MAX) by (nonlinear_arith)
                requires i32::MIN <= d <= i32::MAX;
            assert(0 <= (SPEED as int) * (delta as int) <= 600 * u64::MAX) by (nonlinear_arith)
                requires 0 <= delta <= u64::MAX;
        }
        let target: i128 = (self.destination as i128) * (MICROS_PER_PIXEL as i128);
        let toward: i128 = if self.walking_right { 1 } else { -1 };
        let side: i128 = if target - x1 >= 0 { 1 } else { -1 };
        if side != toward {
            ch.x = target as i64;
            StateMachine::transit(Target::Idle, ch, env)
        } else {
            ch.x = x1 as i64;
            Behavior::Walk(self)
        }
    }
}

impl IdleState {
    /// Idles on for `delta` microseconds: once the duration is reached, walks;
    /// until then follows the media flag, showing the dancing animation while it is
    /// set and the ready one otherwise.
    pub fn update(self, ch: &mut Character, delta: u64, env: Environment) -> (r: Behavior)
        requires
            old(ch).wf(),
        ensures
            final(ch).wf(),
            behavior_step(Behavior::Idle(self), old(ch).anims@, old(ch).x as int, delta as nat, env, r, final(ch).anims@, final(ch).x as int),
            final(ch).y == old(ch).y,
    {
        let e = self.elapsed.saturating_add(delta);
        if e >= self.duration {
            StateMachine::transit(Target::Walk, ch, env)
        } else {
            if env.dancing != self.dancing {
                if env.dancing {
                    let _ = ch.anims.set_anim("dancing");
                } else {
                    let _ = ch.anims.set_anim("ready");
                }
            }
            Behavior::Idle(IdleState { elapsed: e, duration: self.duration, dancing: env.dancing })
        }
    }
}

/// `b` and catalogue `after` are what entering `target` from `before` at `x` gives.
pub open spec fn entered(target: Target, before: CatalogView, x: int, env: Environment, after: CatalogView, b: Behavior) -> bool {
    match target {
        Target::Idle => idle_entered(before, after, b),
        Target::Walk => walk_entered(before, x, env, after, b),
    }
}

/// Holds the one active behaviour; empty until started.
pub struct StateMachine {
    current: Option<Behavior>,
}

impl StateMachine {
    /// The active behaviour, `None` before the machine is started.
    pub closed spec fn current_spec(&self) -> Option<Behavior> {
        self.current
    }

    /// An empty machine: it needs `init` before any update.
    pub fn new() -> (r: StateMachine)
        ensures
            r.current_spec() is None,
    {
        StateMachine { current: None }
    }

    /// Enters `target` on `ch` and hands back the new behaviour: the only way a
    /// behaviour changes.
    pub fn transit(target: Target, ch: &mut Character, env: Environment) -> (r: Behavior)
        requires
            old(ch).wf(),
        ensures
            final(ch).wf(),
            entered(target, old(ch).anims@, old(ch).x as int, env, final(ch).anims@, r),
            final(ch).x == old(ch).x,
            final(ch).y == old(ch).y,
    {
        match target {
            Target::Idle => IdleState::enter(ch),
            Target::Walk => WalkState::enter(ch, env),
        }
    }

    /// Starts the machine by entering its first behaviour, once the character exists.
    pub fn init(&mut self, first: Target, ch: &mut Character, env: Environment)
        requires
            old(ch).wf(),
        ensures
            final(ch).wf(),
            final(self).current_spec() matches Some(b) && entered(first, old(ch).anims@, old(ch).x as int, env, final(ch).anims@, b),
            final(ch).x == old(ch).x,
            final(ch).y == old(ch).y,
    {
        self.current = Some(StateMachine::transit(first, ch, env));
    }

    /// The active behaviour.
    pub fn current(&self) -> (r: Option<Behavior>)
        ensures
            r == self.current_spec(),
    {
        self.current
    }

    /// Updates the active behaviour for `delta` microseconds; it either stays or is
    /// replaced by the behaviour it enters.
    pub fn update(&mut self, ch: &mut Character, delta: u64, env: Environment)
        requires
            old(self).current_spec() is Some,
            old(ch).wf(),
        ensures
            final(ch).wf(),
            final(self).current_spec() matches Some(b2) && behavior_step(
                old(self).current_spec()->Some_0,
                old(ch).anims@,
                old(ch).x as int,
                delta as nat,
                env,
                b2,
                final(ch).anims@,
                final(ch).x as int,
            ),
            final(ch).y == old(ch).y,
    {
        let next = match self.current {
            Some(Behavior::Idle(i)) => i.update(ch, delta, env),
            Some(Behavior::Walk(w)) => w.update(ch, delta, env),
            None => {
                proof {
                    assert(false);
                }
                return;
            },
        };
        self.current = Some(next);
    }
}

/// How far, in micro-pixels, a walk of `w` at `x` still has to go (zero once past).
pub open spec fn walk_distance(w: WalkState, x: int) -> nat {
    let d = if w.walking_right {
        w.destination * MICROS_PER_PIXEL - x
    } else {
        x - w.destination * MICROS_PER_PIXEL
    };
    if d >= 0 {
        d as nat
    } else {
        0
    }
}

/// A walk of `w` from `x`, updated `n` times by `delta` microseconds, arrives.
pub open spec fn arrives_within(w: WalkState, x: int, delta: nat, n: nat) -> bool
    decreases n,
{
    if n == 0 {
        false
    } else {
        let x1 = walked_to(w, x, delta);
        arrived(w, x1) || arrives_within(w, x1, delta, (n - 1) as nat)
    }
}

/// Arriving within `n` updates means arriving within any larger number of them.
proof fn lemma_arrives_within_more(w: WalkState, x: int, delta: nat, n: nat, m: nat)
    requires
        arrives_within(w, x, delta, n),
        n <= m,
    ensures
        arrives_within(w, x, delta, m),
    decreases n,
{
    let x1 = walked_to(w, x, delta);
    if !arrived(w, x1) {
        lemma_arrives_within_more(w, x1, delta, (n - 1) as nat, (m - 1) as nat);
    }
}

/// Every walk comes to an end: updated by any positive number of microseconds at a
/// time, a walk arrives at its destination (and so turns to idle) within one update
/// more than the micro-pixels it still has to go.
pub proof fn lemma_walk_arrives(w: WalkState, x: int, delta: nat)
    requires
        delta > 0,
    ensures
        arrives_within(w, x, delta, walk_distance(w, x) + 1),
    decreases walk_distance(w, x),
{
    let x1 = walked_to(w, x, delta);
    assert(SPEED * delta >= 1) by (nonlinear_arith) requires delta >= 1;
    if !arrived(w, x1) {
        assert(walk_distance(w, x1) < walk_distance(w, x));
        lemma_walk_arrives(w, x1, delta);
        lemma_arrives_within_more(w, x1, delta, walk_distance(w, x1) + 1, walk_distance(w, x));
    }
}

} // verus!
