use term_test::{ScreenState, TermTestError};

#[test]
fn test_create_screen() {
    let screen = ScreenState::new(80, 24);
    assert_eq!(screen.size(), (80, 24));
}

#[test]
fn test_feed_simple_text() {
    let mut screen = ScreenState::new(80, 24);
    screen.feed(b"Hello, World!");
    assert!(screen.contains("Hello, World!"));
}

#[test]
fn test_cursor_position() {
    let screen = ScreenState::new(80, 24);
    let (row, col) = screen.cursor_position();
    assert_eq!(row, 0);
    assert_eq!(col, 0);
}

#[test]
fn test_text_at() {
    let mut screen = ScreenState::new(80, 24);
    screen.feed(b"Hello");
    assert!(screen.text_at(0, 0, "Hello"));
    assert!(!screen.text_at(0, 0, "World"));
}

#[test]
fn cursor_addressing_is_one_based_in_and_zero_based_out() {
    let mut screen = ScreenState::new(80, 24);
    screen.feed(b"\x1b[5;10H");
    assert_eq!(screen.cursor_position(), (4, 9));
    screen.feed(b"ab");
    assert_eq!(screen.cursor_position(), (4, 11));
}

#[test]
fn contents_has_one_line_per_row() {
    let mut screen = ScreenState::new(10, 3);
    screen.feed(b"one\r\ntwo\r\nthree");
    assert_eq!(screen.contents(), "one\ntwo\nthree");
    assert!(screen.contains("two\nthree"));
    assert!(!screen.contains("four"));
    assert!(screen.contains(""));
}

#[test]
fn row_contents_reads_every_cell_of_the_row() {
    let mut screen = ScreenState::new(6, 2);
    screen.feed(b"ab\r\ncd");
    assert_eq!(screen.row_contents(0), "ab");
    assert_eq!(screen.row_contents(1), "cd");
    screen.feed(b"\x1b[1;4Hz");
    assert_eq!(screen.row_contents(0), "abz");
}

#[test]
fn row_contents_is_empty_below_the_screen() {
    let mut screen = ScreenState::new(6, 2);
    screen.feed(b"ab");
    assert_eq!(screen.row_contents(2), "");
    assert_eq!(screen.row_contents(65535), "");
}

#[test]
fn char_at_reads_a_cell_or_nothing() {
    let mut screen = ScreenState::new(6, 2);
    screen.feed(b"ab");
    assert_eq!(screen.char_at(0, 0), Some('a'));
    assert_eq!(screen.char_at(0, 1), Some('b'));
    assert_eq!(screen.char_at(0, 2), None);
    assert_eq!(screen.char_at(2, 0), None);
    assert_eq!(screen.char_at(0, 6), None);
}

#[test]
fn text_at_is_false_outside_the_screen_and_past_the_text() {
    let mut screen = ScreenState::new(8, 2);
    screen.feed(b"Hello");
    assert!(screen.text_at(0, 1, "ello"));
    assert!(screen.text_at(0, 4, "o"));
    assert!(!screen.text_at(0, 1, "Hello"));
    assert!(!screen.text_at(0, 5, ""));
    assert!(!screen.text_at(2, 0, "Hello"));
    assert!(!screen.text_at(0, 8, "Hello"));
    assert!(!screen.text_at(1, 0, "Hello"));
}

#[test]
fn text_at_counts_bytes_of_the_row_text() {
    let mut screen = ScreenState::new(8, 2);
    screen.feed("h\u{e9}llo\r\n\u{e9}x".as_bytes());
    assert_eq!(screen.row_contents(0), "h\u{e9}llo");
    assert!(screen.text_at(0, 0, "h\u{e9}l"));
    assert!(screen.text_at(0, 1, "\u{e9}l"));
    assert!(screen.text_at(0, 3, "llo"));
    assert!(!screen.text_at(0, 2, "llo"));
    assert!(screen.text_at(0, 5, "o"));
    assert!(!screen.text_at(0, 6, ""));
    assert_eq!(screen.row_contents(1), "\u{e9}x");
    assert!(screen.text_at(1, 2, "x"));
    assert!(!screen.text_at(1, 1, "x"));
}

#[test]
fn text_at_is_false_inside_a_character() {
    let mut screen = ScreenState::new(8, 2);
    screen.feed("\u{4e16}a".as_bytes());
    assert!(screen.text_at(0, 0, "\u{4e16}"));
    assert!(!screen.text_at(0, 1, ""));
    assert!(!screen.text_at(0, 2, ""));
    assert!(screen.text_at(0, 3, ""));
}

#[test]
fn debug_contents_numbers_the_rows() {
    let mut screen = ScreenState::new(4, 3);
    screen.feed(b"ab\r\n\r\ncd");
    assert_eq!(screen.debug_contents(), "  0 | ab\n  1 | \n  2 | cd");
}

#[test]
fn debug_contents_aligns_wider_numbers() {
    let screen = ScreenState::new(3, 101);
    let listing = screen.debug_contents();
    let lines: Vec<&str> = listing.split('\n').collect();
    assert_eq!(lines.len(), 101);
    assert_eq!(lines[9], "  9 | ");
    assert_eq!(lines[10], " 10 | ");
    assert_eq!(lines[99], " 99 | ");
    assert_eq!(lines[100], "100 | ");
}

#[test]
fn try_new_accepts_the_supported_sizes() {
    assert!(ScreenState::try_new(80, 24).is_ok());
    assert!(ScreenState::try_new(3, 2).is_ok());
    assert!(ScreenState::try_new(65527, 2).is_ok());
    assert_eq!(ScreenState::try_new(120, 40).unwrap().size(), (120, 40));
}

#[test]
fn try_new_rejects_the_other_sizes() {
    for (width, height) in
        [(0, 0), (0, 24), (80, 0), (1, 24), (2, 2), (2, 24), (80, 1), (65528, 24), (65535, 2)]
    {
        match ScreenState::try_new(width, height) {
            Err(TermTestError::InvalidDimensions { width: w, height: h }) => {
                assert_eq!((w, h), (width, height));
            }
            _ => panic!("{}x{} was accepted", width, height),
        }
    }
}

#[test]
fn the_widest_character_fits_the_narrowest_screen() {
    let mut screen = ScreenState::new(3, 2);
    screen.feed(&[0x61, 0x62, 0xe1, 0x9f, 0x98]);
    assert_eq!(screen.row_contents(0), "ab");
    assert_eq!(screen.char_at(1, 0), Some('\u{17d8}'));
}

#[test]
fn screen_gives_the_emulator_screen() {
    let mut screen = ScreenState::new(80, 24);
    screen.feed(b"\x1b[2;3H");
    assert_eq!(screen.screen().size(), (24, 80));
    assert_eq!(screen.screen().cursor_position(), (1, 2));
}

#[test]
fn regions_come_in_detection_order() {
    let mut screen = ScreenState::new(80, 24);
    assert!(screen.sixel_regions().is_empty());
    screen.feed(b"\x1b[10;10H\x1bPq\"1;1;100;50#0~\x1b\\");
    assert_eq!(screen.sixel_regions().len(), 1);
    screen.feed(b"\x1b[15;20H\x1bPq\"1;1;80;60#0~\x1b\\");
    assert_eq!(screen.sixel_regions().len(), 2);
    assert_eq!(screen.sixel_regions()[0].width, 100);
    assert_eq!(screen.sixel_regions()[1].width, 80);
    assert_eq!(screen.sixel_regions()[1].data, b"\"1;1;80;60#0~".to_vec());
}

#[test]
fn has_sixel_at_matches_the_start_exactly() {
    let mut screen = ScreenState::new(80, 24);
    assert!(!screen.has_sixel_at(7, 14));
    screen.feed(b"\x1b[8;15H\x1bPq\"1;1;120;80#0~\x1b\\");
    assert!(screen.has_sixel_at(7, 14));
    assert!(!screen.has_sixel_at(0, 0));
    assert!(!screen.has_sixel_at(7, 15));
    assert!(!screen.has_sixel_at(8, 14));
}

#[test]
fn a_fresh_screen_forgets_the_regions() {
    let mut screen = ScreenState::new(80, 24);
    screen.feed(b"\x1b[10;20H\x1bPq\"1;1;150;100#0~\x1b\\");
    screen.feed(b"\x1b[15;30H\x1bPq\"1;1;100;80#0~\x1b\\");
    assert_eq!(screen.sixel_regions().len(), 2);
    screen = ScreenState::new(80, 24);
    assert!(screen.sixel_regions().is_empty());
    assert!(!screen.has_sixel_at(9, 19));
}

#[test]
fn the_division_into_feeds_makes_no_difference() {
    let stream: &[u8] = b"ab\x1b[4;6H\x1bPq\"1;1;12;34#0~~\x1b\\cd\x1b[9;9H\x1bPq#1\x1b\\";
    let mut whole = ScreenState::new(40, 12);
    whole.feed(stream);
    for cut in 0..=stream.len() {
        let mut parts = ScreenState::new(40, 12);
        parts.feed(&stream[..cut]);
        parts.feed(&stream[cut..]);
        assert_eq!(parts.sixel_regions(), whole.sixel_regions());
        assert_eq!(parts.contents(), whole.contents());
        assert_eq!(parts.cursor_position(), whole.cursor_position());
    }
    let mut bytewise = ScreenState::new(40, 12);
    for byte in stream {
        bytewise.feed(&[*byte]);
    }
    assert_eq!(bytewise.sixel_regions(), whole.sixel_regions());
    assert_eq!(whole.sixel_regions().len(), 2);
    assert_eq!(whole.sixel_regions()[0].start_row, 3);
    assert_eq!(whole.sixel_regions()[0].start_col, 5);
    assert_eq!(whole.sixel_regions()[1].start_row, 8);
    assert_eq!(whole.sixel_regions()[1].start_col, 8);
}

#[test]
fn the_cursor_is_sampled_before_the_introducer() {
    let mut screen = ScreenState::new(80, 24);
    screen.feed(b"abc\x1bPq#0~\x1b\\\x1b[1;1H");
    assert_eq!(screen.sixel_regions().len(), 1);
    assert_eq!(screen.sixel_regions()[0].start_row, 0);
    assert_eq!(screen.sixel_regions()[0].start_col, 3);
    assert_eq!(screen.cursor_position(), (0, 0));
}

#[test]
fn a_block_without_terminator_is_never_reported() {
    let mut screen = ScreenState::new(80, 24);
    screen.feed(b"\x1b[2;2H\x1bPq\"1;1;10;10#0~~~");
    assert!(screen.sixel_regions().is_empty());
    screen.feed(b"more payload without an end");
    assert!(screen.sixel_regions().is_empty());
}

#[test]
fn feeding_nothing_changes_nothing() {
    let mut screen = ScreenState::new(80, 24);
    screen.feed(b"x\x1bPq#\x1b\\");
    let before = screen.contents();
    screen.feed(b"");
    assert_eq!(screen.contents(), before);
    assert_eq!(screen.sixel_regions().len(), 1);
}
