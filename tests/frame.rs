use digit::frame::Frame;

#[test]
fn new_frame_is_transparent_black() {
    let f = Frame::new(3, 2);
    assert_eq!(f.size(), (3, 2));
    assert_eq!(f.buffer.len(), 24);
    assert!(f.buffer.iter().all(|b| *b == 0));
}

#[test]
fn set_size_keeps_prefix_and_zero_fills() {
    let mut f = Frame::new(1, 1);
    f.get_mut().copy_from_slice(&[1, 2, 3, 4]);
    f.set_size(2, 1);
    assert_eq!(f.size(), (2, 1));
    assert_eq!(f.buffer, vec![1, 2, 3, 4, 0, 0, 0, 0]);
    f.set_size(1, 1);
    assert_eq!(f.buffer, vec![1, 2, 3, 4]);
}

#[test]
fn set_size_to_empty() {
    let mut f = Frame::new(4, 4);
    f.set_size(0, 7);
    assert_eq!(f.size(), (0, 7));
    assert!(f.buffer.is_empty());
}

#[test]
fn get_mut_writes_through() {
    let mut f = Frame::new(1, 1);
    f.get_mut()[3] = 200;
    assert_eq!(f.buffer, vec![0, 0, 0, 200]);
}
