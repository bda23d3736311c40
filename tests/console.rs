use frame_alloc::console::{echo_bytes, input_available, output_empty, BS, DEL};

#[test]
fn erase_keys_echo_back_blank_back() {
    assert_eq!(echo_bytes(BS), vec![8, b' ', 8]);
    assert_eq!(echo_bytes(DEL), vec![8, b' ', 8]);
}

#[test]
fn other_bytes_echo_as_they_are() {
    assert_eq!(echo_bytes(b'a'), vec![b'a']);
    assert_eq!(echo_bytes(0), vec![0]);
}

#[test]
fn line_status_bits() {
    assert!(input_available(0x61));
    assert!(!input_available(0x60));
    assert!(output_empty(0x20));
    assert!(!output_empty(0x01));
}
