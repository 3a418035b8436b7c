use digit::anim::{AnimError, AnimManager};
use digit::frame::Frame;
use digit::sprite::{AnimSpritesheet, FrameGeometry, LoadError};

fn pattern(sw: u32, sh: u32) -> Vec<u8> {
    let mut v = Vec::new();
    for y in 0..sh {
        for x in 0..sw {
            v.extend_from_slice(&[x as u8, y as u8, 7, 255]);
        }
    }
    v
}

fn strip(width: u32, height: u32, frames: u32, fps: u32) -> AnimSpritesheet {
    let g = FrameGeometry { width, height, frames, fps };
    AnimSpritesheet::from_rgba(width * frames, height, pattern(width * frames, height), Some(g)).unwrap()
}

fn walking_catalog() -> AnimManager {
    let mut m = AnimManager::new();
    m.insert(String::from("walking"), strip(64, 32, 8, 12));
    m.insert(String::from("ready"), strip(2, 2, 1, 1));
    m
}

#[test]
fn walking_cycle_visits_every_frame_once() {
    let mut m = walking_catalog();
    m.set_anim("walking").unwrap();
    assert_eq!(m.frame(), 0);
    let mut seen = Vec::new();
    for _ in 0..8 {
        // one twelfth of a second, rounded up to the microsecond
        m.update(83_334);
        seen.push(m.frame());
    }
    assert_eq!(seen, vec![1, 2, 3, 4, 5, 6, 7, 0]);
}

#[test]
fn frame_waits_until_period_is_exceeded() {
    let mut m = AnimManager::new();
    m.insert(String::from("blink"), strip(1, 1, 3, 10));
    m.set_anim("blink").unwrap();
    m.update(100_000);
    assert_eq!((m.frame(), m.elapsed()), (0, 100_000));
    m.update(1);
    assert_eq!((m.frame(), m.elapsed()), (1, 0));
    // a huge step still moves on by one frame only
    m.update(10_000_000);
    assert_eq!(m.frame(), 2);
}

#[test]
fn select_resets_cursor() {
    let mut m = walking_catalog();
    m.set_anim("walking").unwrap();
    m.update(90_000);
    m.update(90_000);
    m.update(50_000);
    assert_eq!((m.frame(), m.elapsed()), (2, 50_000));
    m.set_flipped(true);
    m.set_anim("walking").unwrap();
    assert_eq!((m.frame(), m.elapsed(), m.flipped()), (0, 0, true));
    assert_eq!(m.current_name(), Some("walking"));
}

#[test]
fn unknown_name_is_refused() {
    let mut m = walking_catalog();
    m.set_anim("walking").unwrap();
    m.update(90_000);
    assert_eq!(m.set_anim("flying"), Err(AnimError::UnknownAnimation));
    assert_eq!(m.frame(), 1);
    assert_eq!(m.current_name(), Some("walking"));
    assert!(!m.contains("flying"));
    assert!(m.contains("ready"));
}

#[test]
fn clock_runs_without_animation() {
    let mut m = AnimManager::new();
    m.update(5);
    m.update(7);
    assert_eq!((m.frame(), m.elapsed()), (0, 12));
    let mut f = Frame::new(1, 1);
    f.get_mut()[0] = 9;
    m.draw(&mut f);
    assert_eq!(f.buffer, vec![9, 0, 0, 0]);
}

#[test]
fn draw_resizes_and_is_deterministic() {
    let mut m = walking_catalog();
    m.set_anim("walking").unwrap();
    m.update(90_000);
    let mut a = Frame::new(3, 3);
    let mut b = Frame::new(64, 32);
    b.get_mut()[0] = 99;
    m.draw(&mut a);
    m.draw(&mut b);
    assert_eq!(a.size(), (64, 32));
    assert_eq!(a.buffer, b.buffer);
    // frame 1 starts at sheet column 64
    assert_eq!(&a.buffer[0..4], &[64, 0, 7, 255]);
    m.set_flipped(true);
    m.draw(&mut a);
    assert_eq!(&a.buffer[0..4], &[127, 0, 7, 255]);
}

#[test]
fn register_then_import() {
    let mut m = AnimManager::new();
    let h = m.register("still");
    let mut png = Vec::new();
    image::png::PngEncoder::new(&mut png)
        .encode(&pattern(2, 2), 2, 2, image::ColorType::Rgba8)
        .unwrap();
    assert_eq!(h.import(&mut m, &png), Ok(()));
    let s = m.get("still").unwrap();
    assert_eq!((s.width(), s.height(), s.frames()), (2, 2, 1));
    let bad = m.register("bad").width(2).height(2).frames(1).fps(1);
    assert_eq!(bad.import(&mut m, &[0, 1, 2]), Err(LoadError::Decode));
    assert!(!m.contains("bad"));
}

#[test]
fn reregistering_replaces_sheet() {
    let mut m = AnimManager::new();
    m.insert(String::from("a"), strip(1, 1, 4, 10));
    m.set_anim("a").unwrap();
    m.update(200_000);
    m.update(200_000);
    assert_eq!(m.frame(), 2);
    m.insert(String::from("a"), strip(1, 1, 2, 10));
    assert_eq!((m.frame(), m.elapsed()), (0, 0));
    assert_eq!(m.get("a").unwrap().frames(), 2);
}
