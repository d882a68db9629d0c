use shipper::logger::SimpleLogger;

#[test]
fn lines_come_out_in_order_without_leading_zero_bytes() {
    let mut l = SimpleLogger::new(128);
    l.ring_write(b"first");
    l.ring_write(b"second");
    assert_eq!(l.ring_display_and_close(), b"first\nsecond\n".to_vec());
}

#[test]
fn an_empty_ring_hands_out_nothing() {
    let mut l = SimpleLogger::new(128);
    assert_eq!(l.ring_display_and_close(), Vec::<u8>::new());
}

#[test]
fn the_oldest_bytes_are_overwritten_when_the_ring_wraps() {
    let mut l = SimpleLogger::new(128);
    let a = vec![b'a'; 99];
    let b = vec![b'b'; 59];
    l.ring_write(&a);
    l.ring_write(&b);
    // 100 + 60 bytes were written into 128: the first 32 are gone.
    let mut want = vec![b'a'; 67];
    want.push(b'\n');
    want.extend_from_slice(&b);
    want.push(b'\n');
    assert_eq!(want.len(), 128);
    assert_eq!(l.ring_display_and_close(), want);
}

#[test]
fn a_line_that_fills_the_ring_exactly_is_kept_whole() {
    let mut l = SimpleLogger::new(128);
    l.ring_write(b"gone");
    let full = vec![b'x'; 127];
    l.ring_write(&full);
    let mut want = full.clone();
    want.push(b'\n');
    assert_eq!(l.ring_display_and_close(), want);
}

#[test]
fn a_line_larger_than_the_ring_is_replaced_by_a_warning() {
    let mut l = SimpleLogger::new(128);
    l.ring_write(&vec![b'x'; 128]);
    assert_eq!(
        l.ring_display_and_close(),
        b"Warning: message larger than buffer! Len:129\n".to_vec()
    );
}

#[test]
fn a_closed_ring_takes_no_more_lines() {
    let mut l = SimpleLogger::new(200);
    l.ring_write(b"kept");
    assert_eq!(l.ring_display_and_close(), b"kept\n".to_vec());
    l.ring_write(b"dropped");
    assert_eq!(l.ring_display_and_close(), b"kept\n".to_vec());
}

#[test]
fn zero_bytes_inside_the_log_are_kept() {
    let mut l = SimpleLogger::new(128);
    l.ring_write(&[0, 0, b'a', 0, b'b']);
    assert_eq!(l.ring_display_and_close(), vec![b'a', 0, b'b', b'\n']);
}
