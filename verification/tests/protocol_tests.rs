use reconstruction::protocol::{
    frame_message, queued_notice_message, read_text_message, text_message, MESSAGE_SIZE,
    PROTOTYPE_MESSAGE_SIZE,
};

#[test]
fn frame_pads_with_zeros() {
    let m = frame_message(vec![1, 2, 3], 6);
    assert_eq!(m, vec![1, 2, 3, 0, 0, 0]);
}

#[test]
fn frame_cuts_long_payloads() {
    let m = frame_message(vec![1, 2, 3, 4, 5], 3);
    assert_eq!(m, vec![1, 2, 3]);
    assert_eq!(frame_message(vec![], 0), Vec::<u8>::new());
}

#[test]
fn frame_idempotent_concrete() {
    let once = frame_message(vec![9, 8, 7], 5);
    let twice = frame_message(once.clone(), 5);
    assert_eq!(once, twice);
}

#[test]
fn message_sizes() {
    assert_eq!(MESSAGE_SIZE, 600000);
    assert_eq!(PROTOTYPE_MESSAGE_SIZE, 200);
    assert_eq!(frame_message(b"hello".to_vec(), PROTOTYPE_MESSAGE_SIZE).len(), 200);
}

#[test]
fn text_message_layout() {
    let m = text_message("abc", 16);
    assert_eq!(m, vec![3, 0, 0, 0, 0, 0, 0, 0, b'a', b'b', b'c', 0, 0, 0, 0, 0]);
    let m = text_message("é", 12);
    assert_eq!(m, vec![2, 0, 0, 0, 0, 0, 0, 0, 0xc3, 0xa9, 0, 0]);
}

#[test]
fn text_round_trip_concrete() {
    for t in ["", "abc", "Adicionado a fila de prioridades", "ação"] {
        let m = text_message(t, 64);
        assert_eq!(read_text_message(&m), Some(t.to_string()));
    }
}

#[test]
fn read_text_refuses_short_or_invalid() {
    assert_eq!(read_text_message(&[1, 0, 0]), None);
    assert_eq!(read_text_message(&[5, 0, 0, 0, 0, 0, 0, 0, b'a']), None);
    assert_eq!(read_text_message(&[1, 0, 0, 0, 0, 0, 0, 0, 0xff]), None);
    assert_eq!(read_text_message(&[0, 0, 0, 0, 0, 0, 0, 0]), Some(String::new()));
}

#[test]
fn cut_text_is_not_read_back() {
    let m = text_message("hello world", 12);
    assert_eq!(read_text_message(&m), None);
}

#[test]
fn queued_notice_concrete() {
    let m = queued_notice_message();
    assert_eq!(m.len(), 600000);
    assert_eq!(read_text_message(&m), Some("Adicionado a fila de prioridades".to_string()));
}
