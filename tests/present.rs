use digit::present::{BufferSelector, PresentAction, Presenter};

#[test]
fn back_is_never_front() {
    let mut s = BufferSelector::new();
    assert_eq!(s.front(), 0);
    assert_eq!(s.back(), 1);
    for _ in 0..5 {
        let written = s.back();
        assert_ne!(written, s.front());
        let front = s.publish();
        assert_eq!(front, written);
        assert_eq!(s.front(), written);
        assert_ne!(s.back(), s.front());
    }
}

#[test]
fn presenter_skips_stale_frames() {
    let mut p = Presenter::new(32, 32, 4, 0);
    assert!(p.tick(0, 32, 32).is_empty());
    assert_eq!(p.tick(1, 32, 32), vec![PresentAction::Present]);
    assert!(p.tick(1, 32, 32).is_empty());
}

#[test]
fn presenter_resizes_surface_before_buffer() {
    let mut p = Presenter::new(32, 32, 4, 0);
    assert_eq!(
        p.tick(1, 64, 32),
        vec![
            PresentAction::ResizeSurface(256, 128),
            PresentAction::ResizeBuffer(64, 32),
            PresentAction::Present,
        ]
    );
    assert_eq!((p.width, p.height, p.last_seen), (64, 32, 1));
    assert!(p.tick(1, 64, 32).is_empty());
}
