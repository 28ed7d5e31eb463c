use tuimail::display::{byte_to_char_pos, create_highlighted_text, format_file_size, safe_char_slice, safe_char_slice_from, SegmentKind};
use tuimail::grammarcheck::GrammarError;
use tuimail::spellcheck::SpellError;

fn float_format(bytes: usize) -> String {
    let units = ["B", "KB", "MB", "GB"];
    let mut size = bytes as f64;
    let mut unit_index = 0;
    while size >= 1024.0 && unit_index < units.len() - 1 {
        size /= 1024.0;
        unit_index += 1;
    }
    if unit_index == 0 {
        format!("{} {}", bytes, units[unit_index])
    } else {
        format!("{:.1} {}", size, units[unit_index])
    }
}

#[test]
fn file_sizes() {
    assert_eq!(format_file_size(0), "0 B");
    assert_eq!(format_file_size(1023), "1023 B");
    assert_eq!(format_file_size(1024), "1.0 KB");
    assert_eq!(format_file_size(1536), "1.5 KB");
    assert_eq!(format_file_size(1048576), "1.0 MB");
    assert_eq!(format_file_size(5 * 1024 * 1024 * 1024), "5.0 GB");
    assert_eq!(format_file_size(3 * 1024 * 1024 * 1024 * 1024), "3072.0 GB");
}

#[test]
fn file_sizes_agree_with_float_formatting() {
    let mut samples: Vec<usize> = vec![1024 + 51, 1024 + 52, 1024 + 102, 1024 + 154, 2048 + 51, 10 * 1024 + 512];
    for k in 0..2000usize {
        samples.push(k * 37 + 1000);
        samples.push(k * 104_729 + 1_000_000);
        samples.push(k * 7_919_111 + 1_000_000_000);
    }
    for b in samples {
        assert_eq!(format_file_size(b), float_format(b), "size {}", b);
    }
}

#[test]
fn character_positions() {
    let t = "héllo wörld";
    assert_eq!(byte_to_char_pos(t, 0), 0);
    assert_eq!(byte_to_char_pos(t, 1), 1);
    assert_eq!(byte_to_char_pos(t, 2), 2);
    assert_eq!(byte_to_char_pos(t, 3), 2);
    assert_eq!(byte_to_char_pos(t, 7), 6);
    assert_eq!(byte_to_char_pos(t, 100), 11);
    assert_eq!(safe_char_slice(t, 1, 4), "éll");
    assert_eq!(safe_char_slice(t, 4, 1), "");
    assert_eq!(safe_char_slice(t, 6, 100), "wörld");
    assert_eq!(safe_char_slice(t, 50, 60), "");
    assert_eq!(safe_char_slice_from(t, 6), "wörld");
    assert_eq!(safe_char_slice_from(t, 11), "");
}

fn spell(word: &str, position: usize) -> SpellError {
    SpellError { word: word.to_string(), position, suggestions: vec![] }
}

fn shown(segs: &[tuimail::display::Segment]) -> Vec<(SegmentKind, String)> {
    segs.iter().map(|s| (s.kind, s.text.clone())).collect()
}

#[test]
fn highlighted_segments() {
    let text = "Teh cat sat on teh mat";
    let segs = create_highlighted_text(text, &[spell("teh", 15), spell("Teh", 0)], &[], false, 0);
    assert_eq!(
        shown(&segs),
        vec![
            (SegmentKind::Misspelled, "Teh".to_string()),
            (SegmentKind::Plain, " cat sat on ".to_string()),
            (SegmentKind::Misspelled, "teh".to_string()),
            (SegmentKind::Plain, " mat".to_string()),
        ]
    );
    let g = GrammarError { message: "m".to_string(), start: 4, end: 7, replacements: vec![] };
    let segs = create_highlighted_text("a bb cat", &[], &[g], false, 0);
    assert_eq!(
        shown(&segs),
        vec![
            (SegmentKind::Plain, "a bb".to_string()),
            (SegmentKind::GrammarError, " ca".to_string()),
            (SegmentKind::Plain, "t".to_string()),
        ]
    );
    assert!(create_highlighted_text("", &[], &[], false, 0).is_empty());
    let past_end = create_highlighted_text("ab", &[spell("zz", 10)], &[], false, 0);
    assert_eq!(shown(&past_end), vec![(SegmentKind::Plain, "ab".to_string())]);
}

#[test]
fn cursor_is_inserted() {
    let segs = create_highlighted_text("hello world", &[], &[], true, 5);
    assert_eq!(
        shown(&segs),
        vec![
            (SegmentKind::Plain, "hello".to_string()),
            (SegmentKind::Cursor, "│".to_string()),
            (SegmentKind::Plain, " world".to_string()),
        ]
    );
    let at_start = create_highlighted_text("hi", &[], &[], true, 0);
    assert_eq!(shown(&at_start), vec![(SegmentKind::Cursor, "│".to_string()), (SegmentKind::Plain, "hi".to_string())]);
    let at_end = create_highlighted_text("hi", &[], &[], true, 2);
    assert_eq!(shown(&at_end), vec![(SegmentKind::Plain, "hi".to_string()), (SegmentKind::Cursor, "│".to_string())]);
    let beyond = create_highlighted_text("hi", &[], &[], true, 9);
    assert_eq!(shown(&beyond), vec![(SegmentKind::Plain, "hi".to_string()), (SegmentKind::Cursor, "│".to_string())]);
    let empty = create_highlighted_text("", &[], &[], true, 0);
    assert_eq!(shown(&empty), vec![(SegmentKind::Cursor, "│".to_string())]);
}
