use ascii_video::frame::{Frame, FrameBuffer};

fn numbered_frame(index: u64) -> Frame {
    Frame::new(1, 1, vec![0, 0, 0], 0, index)
}

#[test]
fn new_and_empty_build_well_formed_frames() {
    let f = Frame::new(2, 2, vec![9; 12], 7, 3);
    assert_eq!(f.width, 2);
    assert_eq!(f.height, 2);
    assert_eq!(f.data.len(), 12);
    assert_eq!(f.timestamp, 7);
    assert_eq!(f.index, 3);
    let e = Frame::empty(3, 2);
    assert_eq!(e.data.len(), 18);
    assert!(e.data.iter().all(|&b| b == 0));
}

#[test]
fn get_pixel_reads_in_range_and_rejects_out_of_range() {
    let data = vec![1, 2, 3, 4, 5, 6, 7, 8, 9, 10, 11, 12];
    let f = Frame::new(2, 2, data, 0, 0);
    assert_eq!(f.get_pixel(0, 0), Some((1, 2, 3)));
    assert_eq!(f.get_pixel(1, 0), Some((4, 5, 6)));
    assert_eq!(f.get_pixel(0, 1), Some((7, 8, 9)));
    assert_eq!(f.get_pixel(1, 1), Some((10, 11, 12)));
    assert_eq!(f.get_pixel(2, 0), None);
    assert_eq!(f.get_pixel(0, 2), None);
}

#[test]
fn to_grayscale_weights_each_pixel() {
    let f = Frame::new(2, 1, vec![255, 0, 0, 0, 255, 0], 0, 0);
    let g = f.to_grayscale();
    assert_eq!(g, vec![54, 182]);
}

#[test]
fn adjust_brightness_contrast_moves_channels() {
    let f = Frame::new(1, 1, vec![128, 0, 255], 5, 6);
    let neutral = f.adjust_brightness_contrast(0, 1000);
    // 128 -> 501 per-mille -> 501 * 255 / 1000 = 127
    assert_eq!(neutral.data, vec![127, 0, 255]);
    assert_eq!(neutral.timestamp, 5);
    assert_eq!(neutral.index, 6);
    let bright = f.adjust_brightness_contrast(1000, 1000);
    assert_eq!(bright.data, vec![255, 255, 255]);
    let dark = f.adjust_brightness_contrast(-1000, 1000);
    assert_eq!(dark.data, vec![0, 0, 0]);
}

#[test]
fn resize_reshapes_the_buffer() {
    let f = Frame::new(2, 2, vec![0; 12], 9, 1);
    let small = f.resize(1, 1);
    assert_eq!(small.width, 1);
    assert_eq!(small.height, 1);
    assert_eq!(small.data.len(), 3);
    assert_eq!(small.data, vec![0, 0, 0]);
    assert_eq!(small.timestamp, 9);
    let big = f.resize(4, 4);
    assert_eq!(big.data.len(), 48);
}

#[test]
fn buffer_never_exceeds_capacity() {
    let mut buf = FrameBuffer::new(3);
    for i in 0..10 {
        buf.push(numbered_frame(i));
        assert!(buf.len() <= 3);
    }
    assert_eq!(buf.len(), 3);
    // the oldest frames were evicted
    assert_eq!(buf.get(0).unwrap().index, 7);
    assert_eq!(buf.latest().unwrap().index, 9);
}

#[test]
fn previous_after_next_returns_to_the_same_frame() {
    let mut buf = FrameBuffer::new(5);
    for i in 0..3 {
        buf.push(numbered_frame(i));
    }
    let first = buf.next().unwrap().index;
    assert_eq!(first, 0);
    let back = buf.previous().unwrap().index;
    assert_eq!(back, first);
    buf.next();
    buf.next();
    let second = buf.previous().unwrap().index;
    assert_eq!(second, 1);
}

#[test]
fn cursor_walks_and_rewinds() {
    let mut buf = FrameBuffer::new(4);
    assert!(buf.is_empty());
    assert!(buf.next().is_none());
    assert!(buf.previous().is_none());
    for i in 0..2 {
        buf.push(numbered_frame(i));
    }
    assert!(!buf.is_empty());
    assert_eq!(buf.next().unwrap().index, 0);
    assert_eq!(buf.next().unwrap().index, 1);
    assert!(buf.next().is_none());
    buf.rewind();
    assert_eq!(buf.next().unwrap().index, 0);
    buf.clear();
    assert!(buf.is_empty());
    assert!(buf.get(0).is_none());
    assert!(buf.latest().is_none());
}

#[test]
fn eviction_shifts_the_cursor_with_its_frame() {
    let mut buf = FrameBuffer::new(2);
    buf.push(numbered_frame(0));
    buf.push(numbered_frame(1));
    // cursor on frame 1 after one step
    assert_eq!(buf.next().unwrap().index, 0);
    // eviction of frame 0 pulls the cursor back so next() still yields 1
    buf.push(numbered_frame(2));
    assert_eq!(buf.next().unwrap().index, 1);
}
