use propane_monitor_embassy::frame::{CommandFrame, FRAME_CAPACITY};

#[test]
fn frame_capacity_is_1024() {
    assert_eq!(FRAME_CAPACITY, 1024);
}

#[test]
fn capture_takes_the_first_bytes() {
    let mut buffer = [0u8; 1024];
    buffer[..4].copy_from_slice(b"AT\r\n");
    buffer[4] = b'X';
    let frame = CommandFrame::capture(&buffer, 4).unwrap();
    assert_eq!(frame.as_bytes(), b"AT\r\n");
    assert_eq!(frame.len(), 4);
    assert!(!frame.is_empty());
}

#[test]
fn capture_of_nothing_is_an_empty_frame() {
    let buffer = [7u8; 16];
    let frame = CommandFrame::capture(&buffer, 0).unwrap();
    assert!(frame.is_empty());
    assert_eq!(frame.len(), 0);
    assert_eq!(frame.as_bytes(), b"");
}

#[test]
fn capture_of_a_full_buffer() {
    let mut buffer = [0u8; 1024];
    for (index, byte) in buffer.iter_mut().enumerate() {
        *byte = (index % 251) as u8;
    }
    let frame = CommandFrame::capture(&buffer, 1024).unwrap();
    assert_eq!(frame.len(), 1024);
    assert_eq!(frame.as_bytes(), &buffer[..]);
}

#[test]
fn capture_refuses_more_than_the_buffer_holds() {
    let buffer = [1u8; 8];
    assert_eq!(CommandFrame::capture(&buffer, 9), None);
    assert!(CommandFrame::capture(&buffer, 8).is_some());
}

#[test]
fn capture_refuses_more_than_a_frame_holds() {
    let buffer = vec![1u8; 2048];
    assert_eq!(CommandFrame::capture(&buffer, 1025), None);
    assert_eq!(CommandFrame::capture(&buffer, 1024).unwrap().len(), 1024);
}
