use tear_grep::{
    color_role, decide_search, group_blocks, parse_styled_blocks, scan_segments, search_args,
    search_directory, ColorRole, ScanMode, Scanner, SearchAction, StyledBlock, TextSegment,
};

fn seg_tuple(s: &TextSegment) -> (String, Option<u32>, bool) {
    (s.text.clone(), s.color, s.bold)
}

fn block_tuples(b: &StyledBlock) -> Vec<(String, Option<u32>, bool)> {
    b.segments.iter().map(seg_tuple).collect()
}

fn all_text(blocks: &[StyledBlock]) -> String {
    let mut out = String::new();
    for b in blocks {
        for s in &b.segments {
            out.push_str(&s.text);
        }
    }
    out
}

#[test]
fn plain_text_is_one_default_block() {
    let input = "hello world\nsecond line\n";
    let blocks = parse_styled_blocks(input);
    assert_eq!(blocks.len(), 1);
    assert_eq!(all_text(&blocks), input);
    for s in &blocks[0].segments {
        assert_eq!(s.color, None);
        assert!(!s.bold);
    }
}

#[test]
fn color_code_applies_to_segment() {
    let blocks = parse_styled_blocks("\u{1b}[31mfoo\u{1b}[0m");
    assert_eq!(blocks.len(), 1);
    assert_eq!(block_tuples(&blocks[0]), vec![("foo".to_string(), Some(31), false)]);
}

#[test]
fn bold_then_reset() {
    let blocks = parse_styled_blocks("\u{1b}[1mBOLD\u{1b}[0mplain");
    assert_eq!(blocks.len(), 1);
    assert_eq!(
        block_tuples(&blocks[0]),
        vec![("BOLD".to_string(), None, true), ("plain".to_string(), None, false)]
    );
}

#[test]
fn blank_line_splits_blocks() {
    let blocks = parse_styled_blocks("a\n\nb");
    assert_eq!(blocks.len(), 2);
    assert_eq!(block_tuples(&blocks[0]), vec![("a\n".to_string(), None, false)]);
    assert_eq!(block_tuples(&blocks[1]), vec![("b".to_string(), None, false)]);
    for b in &blocks {
        for s in &b.segments {
            assert!(!s.is_block_terminator);
        }
    }
}

#[test]
fn stripped_text_round_trips() {
    let input = "\u{1b}[35mpath/file.rs\u{1b}[0m\n\u{1b}[32m12\u{1b}[0m:let \u{1b}[31mx\u{1b}[0m = 1;\n";
    let blocks = parse_styled_blocks(input);
    assert_eq!(all_text(&blocks), "path/file.rs\n12:let x = 1;\n");
}

#[test]
fn malformed_sequence_keeps_text() {
    let blocks = parse_styled_blocks("\u{1b}[9zfoo");
    assert_eq!(blocks.len(), 1);
    assert_eq!(block_tuples(&blocks[0]), vec![("zfoo".to_string(), None, false)]);
}

#[test]
fn empty_input_has_no_blocks() {
    assert!(parse_styled_blocks("").is_empty());
    assert!(scan_segments("").is_empty());
}

#[test]
fn multi_digit_code_and_unknown_role() {
    let blocks = parse_styled_blocks("\u{1b}[38mx");
    assert_eq!(block_tuples(&blocks[0]), vec![("x".to_string(), Some(38), false)]);
    assert_eq!(color_role(Some(38)), ColorRole::Unknown);
}

#[test]
fn huge_code_saturates() {
    let blocks = parse_styled_blocks("\u{1b}[99999999999mx");
    assert_eq!(block_tuples(&blocks[0]), vec![("x".to_string(), Some(u32::MAX), false)]);
}

#[test]
fn color_change_closes_segment_with_text() {
    let blocks = parse_styled_blocks("ab\u{1b}[32mcd\u{1b}[1mef");
    assert_eq!(
        block_tuples(&blocks[0]),
        vec![
            ("ab".to_string(), None, false),
            ("cd".to_string(), Some(32), false),
            ("ef".to_string(), Some(32), true),
        ]
    );
}

#[test]
fn same_style_again_keeps_segment() {
    let blocks = parse_styled_blocks("\u{1b}[31mab\u{1b}[31mcd");
    assert_eq!(block_tuples(&blocks[0]), vec![("abcd".to_string(), Some(31), false)]);
}

#[test]
fn escape_char_inside_sequence_is_text() {
    let blocks = parse_styled_blocks("\u{1b}\u{1b}x");
    assert_eq!(block_tuples(&blocks[0]), vec![("\u{1b}x".to_string(), None, false)]);
}

#[test]
fn escape_between_newlines_is_no_blank_line() {
    let blocks = parse_styled_blocks("a\n\u{1b}[0m\nb");
    assert_eq!(blocks.len(), 1);
    assert_eq!(all_text(&blocks), "a\n\nb");
}

#[test]
fn three_newlines_split_once() {
    let blocks = parse_styled_blocks("a\n\n\nb");
    assert_eq!(blocks.len(), 2);
    assert_eq!(block_tuples(&blocks[0]), vec![("a\n".to_string(), None, false)]);
    assert_eq!(block_tuples(&blocks[1]), vec![("\nb".to_string(), None, false)]);
}

#[test]
fn reset_starts_default_style() {
    let blocks = parse_styled_blocks("\u{1b}[35mp\u{1b}[0mq");
    assert_eq!(
        block_tuples(&blocks[0]),
        vec![("p".to_string(), Some(35), false), ("q".to_string(), None, false)]
    );
}

#[test]
fn scanner_marks_blank_lines() {
    let segs = scan_segments("a\n\nb");
    assert_eq!(segs.len(), 3);
    assert!(segs[1].is_block_terminator);
    assert_eq!(segs[1].text, "");
    assert_eq!(segs[2].text, "b");
}

#[test]
fn scanner_steps_by_hand() {
    let mut sc = Scanner::new();
    for c in "\u{1b}[32mok".chars() {
        sc.step(c);
    }
    let segs = sc.finish();
    assert_eq!(segs.len(), 1);
    assert_eq!(seg_tuple(&segs[0]), ("ok".to_string(), Some(32), false));
    assert_ne!(ScanMode::Plain, ScanMode::Escape);
}

#[test]
fn grouping_skips_empty_blocks() {
    let segs = vec![
        TextSegment::terminator(),
        TextSegment { text: "x".to_string(), color: None, bold: false, is_block_terminator: false },
        TextSegment::terminator(),
        TextSegment::terminator(),
    ];
    let blocks = group_blocks(segs);
    assert_eq!(blocks.len(), 1);
    assert_eq!(block_tuples(&blocks[0]), vec![("x".to_string(), None, false)]);
}

#[test]
fn color_roles_and_accents() {
    assert_eq!(color_role(Some(31)), ColorRole::Match);
    assert_eq!(color_role(Some(32)), ColorRole::LineNumber);
    assert_eq!(color_role(Some(35)), ColorRole::Path);
    assert_eq!(color_role(None), ColorRole::Plain);
    assert_eq!(color_role(Some(7)), ColorRole::Unknown);
    assert_eq!(ColorRole::Match.accent_rgb(), Some((250, 87, 80)));
    assert_eq!(ColorRole::LineNumber.accent_rgb(), Some((117, 185, 56)));
    assert_eq!(ColorRole::Path.accent_rgb(), Some((242, 117, 190)));
    assert_eq!(ColorRole::Unknown.accent_rgb(), None);
}

#[test]
fn search_decisions() {
    assert_eq!(decide_search(true, "foo", "", false), SearchAction::Run);
    assert_eq!(decide_search(true, "foo", "src", true), SearchAction::Run);
    assert_eq!(decide_search(true, "foo", "nope", false), SearchAction::Keep);
    assert_eq!(decide_search(false, "foo", "", false), SearchAction::Keep);
    assert_eq!(decide_search(true, "", "", false), SearchAction::Clear);
    assert_eq!(decide_search(false, "", "src", true), SearchAction::Clear);
}

#[test]
fn search_dir_and_args() {
    assert_eq!(search_directory(""), ".");
    assert_eq!(search_directory("src"), "src");
    assert_eq!(search_args("needle"), vec!["needle", "--pretty", "--threads", "8"]);
}
