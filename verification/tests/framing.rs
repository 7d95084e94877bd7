use meowth::framing::handle_chunk;

#[test]
fn chunk_without_newline_is_kept() {
    let mut buffer = b"ab".to_vec();
    assert_eq!(handle_chunk(&mut buffer, b"cde"), None);
    assert_eq!(buffer, b"abcde".to_vec());
}

#[test]
fn chunk_with_newline_completes_a_message() {
    let mut buffer = b"ab".to_vec();
    let message = handle_chunk(&mut buffer, b"xcd\nef");
    // The first byte of the chunk is not part of the message.
    assert_eq!(message, Some(b"abcd".to_vec()));
    // The newline and what follows stay pending.
    assert_eq!(buffer, b"\nef".to_vec());
}

#[test]
fn only_the_first_newline_of_a_chunk_ends_a_message() {
    let mut buffer = Vec::new();
    let message = handle_chunk(&mut buffer, b"-one\ntwo\n");
    assert_eq!(message, Some(b"one".to_vec()));
    assert_eq!(buffer, b"\ntwo\n".to_vec());
    let next = handle_chunk(&mut buffer, b"-more\n");
    assert_eq!(next, Some(b"\ntwo\nmore".to_vec()));
    assert_eq!(buffer, b"\n".to_vec());
}

#[test]
fn empty_chunk_changes_nothing() {
    let mut buffer = b"keep".to_vec();
    assert_eq!(handle_chunk(&mut buffer, b""), None);
    assert_eq!(buffer, b"keep".to_vec());
}
