use maude_gateway::framing::find_prompt;
use maude_gateway::framing::frame_response;
use maude_gateway::framing::FrameAccumulator;

#[test]
fn prompt_found_at_first_occurrence() {
    let line = b"a Maude> b Maude> c".to_vec();
    assert_eq!(find_prompt(&line), Some(2));
}

#[test]
fn prompt_found_at_line_start() {
    let line = b"Maude> ".to_vec();
    assert_eq!(find_prompt(&line), Some(0));
}

#[test]
fn prompt_absent_or_misspelled_is_not_found() {
    assert_eq!(find_prompt(&b"no prompt here".to_vec()), None);
    assert_eq!(find_prompt(&b"Maude".to_vec()), None);
    assert_eq!(find_prompt(&b"maude>".to_vec()), None);
    assert_eq!(find_prompt(&Vec::new()), None);
}

#[test]
fn frame_stops_at_mid_line_prompt_and_discards_the_rest() {
    let lines = vec![b"result=5 Maude> next".to_vec()];
    assert_eq!(frame_response(&lines), b"result=5".to_vec());
}

#[test]
fn frame_without_prompt_returns_partial_text_up_to_eof() {
    let lines = vec![b"partial one\n".to_vec(), b"partial two\n".to_vec()];
    assert_eq!(frame_response(&lines), b"partial one\npartial two".to_vec());
}

#[test]
fn frame_trims_surrounding_whitespace() {
    let lines = vec![b"  \n".to_vec(), b"\t body \r\n".to_vec(), b"Maude> ".to_vec()];
    assert_eq!(frame_response(&lines), b"body".to_vec());
}

#[test]
fn frame_of_empty_stream_is_empty() {
    assert_eq!(frame_response(&Vec::new()), Vec::<u8>::new());
}

#[test]
fn frame_with_prompt_at_line_start_is_empty() {
    let lines = vec![b"Maude> trailing".to_vec()];
    assert_eq!(frame_response(&lines), Vec::<u8>::new());
}

#[test]
fn frame_keeps_interior_whitespace_and_newlines() {
    let lines = vec![b"one  two\n".to_vec(), b"\n".to_vec(), b"three\n".to_vec(), b"Maude> ".to_vec()];
    assert_eq!(frame_response(&lines), b"one  two\n\nthree".to_vec());
}

#[test]
fn lines_after_the_prompt_line_are_not_part_of_the_frame() {
    let lines = vec![b"one\n".to_vec(), b"Maude> ".to_vec(), b"two\n".to_vec()];
    assert_eq!(frame_response(&lines), b"one".to_vec());
}

#[test]
fn accumulator_feeds_lines_until_prompt() {
    let mut acc = FrameAccumulator::new();
    assert!(!acc.feed_line(&b"first\n".to_vec()));
    assert!(!acc.feed_line(&b"second\n".to_vec()));
    assert!(acc.feed_line(&b"tail Maude> rest".to_vec()));
    assert_eq!(acc.finish(), b"first\nsecond\ntail".to_vec());
}

#[test]
fn accumulator_of_nothing_finishes_empty() {
    let acc = FrameAccumulator::new();
    assert_eq!(acc.finish(), Vec::<u8>::new());
}
