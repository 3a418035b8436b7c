use digit::anim::AnimManager;
use digit::sprite::{AnimSpritesheet, FrameGeometry};
use digit::states::{
    Behavior, Character, Environment, IdleState, StateMachine, Target, WalkState, WorkArea, IDLE_MIN, IDLE_SPREAD,
    MICROS_PER_PIXEL,
};

fn strip(width: u32, height: u32, frames: u32) -> AnimSpritesheet {
    let g = FrameGeometry { width, height, frames, fps: 12 };
    let n = (width * frames * height * 4) as usize;
    AnimSpritesheet::from_rgba(width * frames, height, vec![1; n], Some(g)).unwrap()
}

fn character(x_px: i64) -> Character {
    let mut anims = AnimManager::new();
    anims.insert(String::from("ready"), strip(32, 32, 1));
    anims.insert(String::from("walking"), strip(64, 32, 8));
    anims.insert(String::from("dancing"), strip(32, 32, 8));
    Character { anims, x: x_px * MICROS_PER_PIXEL, y: 0 }
}

fn env(area: Option<(i32, i32)>, dancing: bool) -> Environment {
    Environment { work_area: area.map(|(left, right)| WorkArea { left, right }), dancing }
}

#[test]
fn idle_of_five_seconds_walks_on_fifth_second() {
    let mut ch = character(0);
    let e = env(Some((0, 1000)), false);
    let mut b = Behavior::Idle(IdleState::begin(&mut ch, 5_000_000));
    assert_eq!(ch.anims.current_name(), Some("ready"));
    for call in 1..=5 {
        b = match b {
            Behavior::Idle(i) => i.update(&mut ch, 1_000_000, e),
            Behavior::Walk(_) => panic!("walked before the duration ran out"),
        };
        if call < 5 {
            assert!(matches!(b, Behavior::Idle(_)), "call {}", call);
        }
    }
    assert!(matches!(b, Behavior::Walk(_)));
    assert_eq!(ch.anims.current_name(), Some("walking"));
}

#[test]
fn idle_duration_is_drawn_in_range() {
    let mut seen = std::collections::HashSet::new();
    for _ in 0..50 {
        let mut ch = character(0);
        match IdleState::enter(&mut ch) {
            Behavior::Idle(i) => {
                assert!(i.duration >= IDLE_MIN && i.duration < IDLE_MIN + IDLE_SPREAD);
                assert_eq!((i.elapsed, i.dancing), (0, false));
                seen.insert(i.duration);
            }
            Behavior::Walk(_) => panic!("entering idle walked"),
        }
    }
    assert!(seen.len() > 1);
}

#[test]
fn idle_follows_media_flag() {
    let mut ch = character(0);
    let i = IdleState::begin(&mut ch, 5_000_000);
    let b = i.update(&mut ch, 1000, env(None, true));
    assert_eq!(ch.anims.current_name(), Some("dancing"));
    let b = match b {
        Behavior::Idle(i) => {
            assert!(i.dancing);
            assert_eq!(i.elapsed, 1000);
            i.update(&mut ch, 1000, env(None, false))
        }
        Behavior::Walk(_) => panic!("walked"),
    };
    assert_eq!(ch.anims.current_name(), Some("ready"));
    assert!(matches!(b, Behavior::Idle(IdleState { dancing: false, elapsed: 2000, .. })));
}

#[test]
fn walk_destination_lies_in_work_area() {
    let mut seen = std::collections::HashSet::new();
    for _ in 0..100 {
        let mut ch = character(0);
        match WalkState::enter(&mut ch, env(Some((-20, 20)), false)) {
            Behavior::Walk(w) => {
                assert!(-20 <= w.destination && w.destination <= 20);
                assert_eq!(w.walking_right, 0 < w.destination);
                assert_eq!(ch.anims.flipped(), !w.walking_right);
                assert_eq!(ch.anims.current_name(), Some("walking"));
                seen.insert(w.destination);
            }
            Behavior::Idle(_) => panic!("idled with a work area"),
        }
    }
    assert!(seen.len() > 1);
}

#[test]
fn single_column_work_area() {
    let mut ch = character(7);
    match WalkState::enter(&mut ch, env(Some((3, 3)), false)) {
        Behavior::Walk(w) => assert_eq!((w.destination, w.walking_right), (3, false)),
        Behavior::Idle(_) => panic!("idled with a work area"),
    }
}

#[test]
fn walk_without_work_area_idles() {
    let mut ch = character(0);
    assert!(matches!(WalkState::enter(&mut ch, env(None, false)), Behavior::Idle(_)));
    assert_eq!(ch.anims.current_name(), Some("ready"));
    let mut ch = character(0);
    assert!(matches!(WalkState::enter(&mut ch, env(Some((10, 5)), false)), Behavior::Idle(_)));
}

#[test]
fn walk_right_moves_then_clamps() {
    let mut ch = character(0);
    let e = env(Some((0, 1000)), false);
    let w = WalkState::begin(&mut ch, WorkArea { left: 0, right: 1000 }, 100);
    assert_eq!(w, WalkState { walking_right: true, destination: 100 });
    assert!(!ch.anims.flipped());
    let b = w.update(&mut ch, 100_000, e);
    assert_eq!(b, Behavior::Walk(w));
    assert_eq!(ch.x, 60 * MICROS_PER_PIXEL);
    let b = w.update(&mut ch, 100_000, e);
    assert!(matches!(b, Behavior::Idle(_)));
    assert_eq!(ch.x, 100 * MICROS_PER_PIXEL);
    assert_eq!(ch.anims.current_name(), Some("ready"));
}

#[test]
fn walk_left_overshoot_clamps() {
    let mut ch = character(500);
    let w = WalkState::begin(&mut ch, WorkArea { left: 0, right: 1000 }, 100);
    assert!(!w.walking_right);
    assert!(ch.anims.flipped());
    let b = w.update(&mut ch, 1_000_000, env(None, false));
    assert!(matches!(b, Behavior::Idle(_)));
    assert_eq!(ch.x, 100 * MICROS_PER_PIXEL);
}

#[test]
fn walk_right_reaching_destination_exactly_stops_on_next_step() {
    let mut ch = character(0);
    let w = WalkState::begin(&mut ch, WorkArea { left: 0, right: 1000 }, 60);
    let b = w.update(&mut ch, 100_000, env(None, false));
    assert_eq!(b, Behavior::Walk(w));
    assert_eq!(ch.x, 60 * MICROS_PER_PIXEL);
    let b = w.update(&mut ch, 1, env(None, false));
    assert!(matches!(b, Behavior::Idle(_)));
    assert_eq!(ch.x, 60 * MICROS_PER_PIXEL);
}

#[test]
fn machine_starts_then_updates() {
    let mut ch = character(0);
    let mut sm = StateMachine::new();
    assert_eq!(sm.current(), None);
    sm.init(Target::Idle, &mut ch, env(None, false));
    assert!(matches!(sm.current(), Some(Behavior::Idle(_))));
    sm.update(&mut ch, 1000, env(None, false));
    match sm.current() {
        Some(Behavior::Idle(i)) => assert_eq!(i.elapsed, 1000),
        other => panic!("unexpected {:?}", other),
    }
    let b = StateMachine::transit(Target::Walk, &mut ch, env(Some((0, 10)), false));
    assert!(matches!(b, Behavior::Walk(_)));
}
