use digit::anim::{AnimError, AnimManager};
use digit::digit::Digit;
use digit::frame::Frame;
use digit::sprite::{AnimSpritesheet, FrameGeometry};
use digit::states::{Behavior, Environment, WorkArea};

fn still(pixels: Vec<u8>, w: u32, h: u32) -> AnimSpritesheet {
    AnimSpritesheet::from_rgba(w, h, pixels, None).unwrap()
}

fn catalog(with_dancing: bool) -> AnimManager {
    let mut m = AnimManager::new();
    m.insert(String::from("ready"), still(vec![9, 9, 9, 0, 5, 6, 7, 255], 2, 1));
    let g = FrameGeometry { width: 1, height: 1, frames: 2, fps: 12 };
    m.insert(String::from("walking"), AnimSpritesheet::from_rgba(2, 1, vec![1, 2, 3, 4, 5, 6, 7, 8], Some(g)).unwrap());
    if with_dancing {
        m.insert(String::from("dancing"), still(vec![1, 1, 1, 1], 1, 1));
    }
    m
}

fn calm() -> Environment {
    Environment { work_area: Some(WorkArea { left: 0, right: 100 }), dancing: false }
}

#[test]
fn missing_animation_is_refused() {
    let r = Digit::new(catalog(false), 0, 0, 4, calm());
    assert_eq!(r.err(), Some(AnimError::UnknownAnimation));
}

#[test]
fn new_starts_idle_and_publishes_first_frame() {
    let d = Digit::new(catalog(true), 32, 100, 4, calm()).unwrap();
    assert!(matches!(d.behavior(), Behavior::Idle(_)));
    assert_eq!(d.front(), 1);
    assert_eq!(d.back(), 0);
    assert_eq!(d.position(), (32_000_000, 100_000_000));
    assert_eq!(d.anims().current_name(), Some("ready"));
}

#[test]
fn render_clears_draws_and_scrubs() {
    let d = Digit::new(catalog(true), 0, 0, 4, calm()).unwrap();
    let mut back = Frame::new(3, 3);
    back.get_mut()[0] = 77;
    d.render(&mut back);
    assert_eq!(back.size(), (2, 1));
    assert_eq!(back.buffer, vec![0, 0, 0, 0, 5, 6, 7, 255]);
}

#[test]
fn publish_swaps_roles() {
    let mut d = Digit::new(catalog(true), 0, 0, 4, calm()).unwrap();
    let back = d.back();
    assert_eq!(d.publish(), back);
    assert_eq!(d.front(), back);
    assert_ne!(d.back(), d.front());
}

#[test]
fn tick_drains_in_fixed_steps() {
    let mut d = Digit::new(catalog(true), 0, 0, 4, calm()).unwrap();
    let steps = d.tick(100_020, calm());
    assert_eq!(steps, vec![33_333, 33_333, 33_333, 21]);
    match d.behavior() {
        Behavior::Idle(i) => assert_eq!(i.elapsed, 100_020),
        Behavior::Walk(_) => panic!("idle ended early"),
    }
    assert_eq!(d.anims().elapsed(), 100_020);
}

#[test]
fn window_position_snaps_to_scale() {
    let d = Digit::new(catalog(true), 37, -5, 4, calm()).unwrap();
    assert_eq!(d.window_position(), (36, -4));
}
