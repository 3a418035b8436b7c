use digit::media::{should_dance, PlaybackStatus};
use std::sync::atomic::{AtomicBool, Ordering};

#[test]
fn dances_only_while_playing() {
    assert!(should_dance(Some(PlaybackStatus::Playing)));
    assert!(!should_dance(Some(PlaybackStatus::Paused)));
    assert!(!should_dance(Some(PlaybackStatus::Stopped)));
    assert!(!should_dance(Some(PlaybackStatus::Closed)));
    assert!(!should_dance(Some(PlaybackStatus::Opened)));
    assert!(!should_dance(Some(PlaybackStatus::Changing)));
}

#[test]
fn failed_query_clears_flag() {
    let flag = AtomicBool::new(false);
    flag.store(should_dance(Some(PlaybackStatus::Playing)), Ordering::SeqCst);
    assert!(flag.load(Ordering::SeqCst));
    flag.store(should_dance(None), Ordering::SeqCst);
    assert!(!flag.load(Ordering::SeqCst));
}
