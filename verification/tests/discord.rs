use mintybot::discord::{find_chunk_break_point, find_safe_boundary};

#[test]
fn test_find_chunk_break_point_with_newline() {
    // Test with newline character
    let text = "This is a test\nwith a newline";
    let max_size = 15; // After "This is a test"
    assert_eq!(find_chunk_break_point(text, max_size), 15); // Should break at newline + 1
}

#[test]
fn test_find_chunk_break_point_with_space() {
    // Test with space character
    let text = "This is a test with spaces";
    let max_size = 15; // After "This is a test"
    assert_eq!(find_chunk_break_point(text, max_size), 15); // Should break at space + 1
}

#[test]
fn test_find_chunk_break_point_with_korean() {
    // Test with Korean characters (multi-byte)
    let text = "안녕하세요 반갑습니다";
    let max_size = 10; // In the middle of Korean text

    // Get result
    let result = find_chunk_break_point(text, max_size);

    // Verify the result is a valid character boundary
    assert!(text.is_char_boundary(result));

    // Verify the result is less than or equal to max_size
    assert!(result <= max_size);

    // Since max_size is 10, which is in the middle of '세' (bytes 9..12),
    // the function should return 9 (the start of '세')
    assert_eq!(result, 9);
}

#[test]
fn test_find_chunk_break_point_with_no_good_break() {
    // Test with no good break point (no space or newline)
    let text = "안녕하세요반갑습니다";
    let max_size = 10; // In the middle of Korean text

    // The result should be a valid character boundary
    let result = find_chunk_break_point(text, max_size);
    assert!(text.is_char_boundary(result));

    // Should find a safe character boundary
    assert!(result <= max_size);
}

#[test]
fn test_find_chunk_break_point_with_exact_size() {
    // Test with exact size match
    let text = "This is a test";
    let max_size = text.len();
    assert_eq!(find_chunk_break_point(text, max_size), text.len());
}

#[test]
fn test_find_chunk_break_point_with_larger_size() {
    // Test with max_size larger than text length
    let text = "This is a test";
    let max_size = text.len() + 10;
    assert_eq!(find_chunk_break_point(text, max_size), text.len());
}

#[test]
fn safe_boundary_steps_back_to_the_start_of_a_character() {
    let text = "안녕";
    assert_eq!(find_safe_boundary(text, 0), 0);
    assert_eq!(find_safe_boundary(text, 1), 0);
    assert_eq!(find_safe_boundary(text, 2), 0);
    assert_eq!(find_safe_boundary(text, 3), 3);
    assert_eq!(find_safe_boundary(text, 5), 3);
    assert_eq!(find_safe_boundary(text, 6), 6);
    assert_eq!(find_safe_boundary(text, 100), 6);
}

#[test]
fn break_point_prefers_the_last_newline_over_a_later_space() {
    let text = "ab\ncd ef gh";
    assert_eq!(find_chunk_break_point(text, 8), 3);
    assert_eq!(find_chunk_break_point("ab cd ef gh", 8), 6);
    assert_eq!(find_chunk_break_point("abcdefghij", 4), 4);
}

#[test]
fn a_short_text_is_sent_whole() {
    assert_eq!(mintybot::discord::say("hello"), vec!["hello".to_string()]);
    assert_eq!(mintybot::discord::say(""), vec!["".to_string()]);
    let exact = "a".repeat(2000);
    assert_eq!(mintybot::discord::say(&exact), vec![exact.clone()]);
}

#[test]
fn a_long_text_is_cut_at_spaces_and_newlines() {
    let line = "word ".repeat(399) + "tail\nnext line";
    assert_eq!(line.len(), 2009);
    let pieces = mintybot::discord::say(&line);
    assert_eq!(pieces.len(), 2);
    assert_eq!(pieces[0], "word ".repeat(399) + "tail\n");
    assert_eq!(pieces[1], "next line");
    assert_eq!(pieces.concat(), line);
}

#[test]
fn pieces_are_within_the_limit_and_join_to_the_text() {
    let texts = [
        "x".repeat(4001),
        "가".repeat(1500),
        ("ab cd\n".repeat(700) + &"🙂".repeat(600)),
        " ".repeat(2001),
        ("가나다 ".repeat(900)),
    ];
    for text in texts.iter() {
        let pieces = mintybot::discord::split_into_chunks(text);
        assert_eq!(&pieces.concat(), text);
        for piece in pieces.iter() {
            assert!(!piece.is_empty());
            assert!(piece.len() <= 2000);
        }
        assert_eq!(mintybot::discord::say(text), pieces);
    }
}

#[test]
fn a_text_without_break_points_is_cut_at_character_boundaries() {
    let text = "가".repeat(1000);
    let pieces = mintybot::discord::split_into_chunks(&text);
    assert_eq!(pieces.len(), 2);
    assert_eq!(pieces[0].len(), 1998);
    assert_eq!(pieces[1].len(), 1002);
    assert!(mintybot::discord::split_into_chunks("").is_empty());
}

#[test]
fn startup_notice_names_the_bot() {
    assert_eq!(mintybot::discord::notify_bot_startup("MintyBot"), "MintyBot started.");
}

#[test]
fn last_byte_search() {
    assert_eq!(mintybot::discord::rfind_byte(b"a b c", 5, b' '), Some(3));
    assert_eq!(mintybot::discord::rfind_byte(b"a b c", 3, b' '), Some(1));
    assert_eq!(mintybot::discord::rfind_byte(b"a b c", 1, b' '), None);
    assert_eq!(mintybot::discord::rfind_byte(b"", 0, b' '), None);
}
