use typeholder::merge::merge_intervals;
use typeholder::{unicode_blocks, unicode_scripts, Range};

fn lines(ls: &[&str]) -> Vec<String> {
    ls.iter().map(|l| l.to_string()).collect()
}

#[test]
fn test_merge_adjacent_allowed() {
    let rs = vec![(0, 5), (6, 10)];
    let others = vec![(20, 30)];
    assert_eq!(merge_intervals(&rs, &others), vec![(0, 10)]);
}

#[test]
fn test_merge_blocked_by_other_script() {
    let rs = vec![(0, 5), (6, 10)];
    let others = vec![(7, 8)];
    assert_eq!(merge_intervals(&rs, &others), vec![(0, 5), (6, 10)]);
}

#[test]
fn test_merge_empty_others_coalesces_all() {
    let rs = vec![(0, 5), (6, 10), (11, 20)];
    let others: Vec<(i32, i32)> = vec![];
    assert_eq!(merge_intervals(&rs, &others), vec![(0, 20)]);
}

#[test]
fn test_merge_distant_span_blocked() {
    let rs = vec![(0, 5), (100, 200)];
    let others = vec![(50, 60)];
    assert_eq!(merge_intervals(&rs, &others), vec![(0, 5), (100, 200)]);
}

#[test]
fn test_merge_idempotent_on_sorted_input() {
    let rs = vec![(0, 5), (6, 10), (20, 30)];
    let others = vec![(12, 15)];
    let once = merge_intervals(&rs, &others);
    assert_eq!(once, vec![(0, 10), (20, 30)]);
    let twice = merge_intervals(&once, &others);
    assert_eq!(twice, once);
}

#[test]
fn test_unicode_blocks_rows() {
    let ls = lines(&[
        "# Blocks-1.txt",
        "",
        "0000..007F; Basic Latin",
        "0080..00FF; Latin-1 Supplement",
    ]);
    let blocks = unicode_blocks(&ls);
    assert_eq!(
        blocks,
        vec![
            Range::Block { name: "Basic Latin".to_string(), code_points: (0x0, 0x7F) },
            Range::Block { name: "Latin-1 Supplement".to_string(), code_points: (0x80, 0xFF) },
        ]
    );
}

#[test]
fn test_unicode_blocks_trailing_comment_is_stripped() {
    let ls = lines(&["0100..017F; Latin Extended-A # historic"]);
    let blocks = unicode_blocks(&ls);
    // Only the text after the comment character goes; the name keeps the
    // space that stood before it.
    assert_eq!(
        blocks,
        vec![Range::Block { name: "Latin Extended-A ".to_string(), code_points: (0x100, 0x17F) }]
    );
}

#[test]
fn test_unicode_blocks_skips_malformed_rows() {
    let ls = lines(&["not a data row", "0000..007F; Basic Latin"]);
    let blocks = unicode_blocks(&ls);
    assert_eq!(blocks.len(), 1);
}

#[test]
fn test_unicode_scripts_adjacent_rows_merge() {
    let ls = lines(&[
        "0041..005A ; Latin",
        "0061..007A ; Latin",
        "0391..03A9 ; Greek",
    ]);
    let scripts = unicode_scripts(&ls);
    assert_eq!(
        scripts,
        vec![
            Range::Script { name: "Latin".to_string(), code_points: vec![(0x41, 0x7A)] },
            Range::Script { name: "Greek".to_string(), code_points: vec![(0x391, 0x3A9)] },
        ]
    );
}

#[test]
fn test_unicode_scripts_merge_blocked_by_other() {
    let ls = lines(&[
        "0041..005A ; Alpha",
        "0061..007A ; Alpha",
        "005B..005C ; Beta",
    ]);
    let scripts = unicode_scripts(&ls);
    assert_eq!(
        scripts,
        vec![
            Range::Script { name: "Alpha".to_string(), code_points: vec![(0x41, 0x5A), (0x61, 0x7A)] },
            Range::Script { name: "Beta".to_string(), code_points: vec![(0x5B, 0x5C)] },
        ]
    );
}

#[test]
fn test_unicode_scripts_single_point_and_pooling() {
    // Rows of one script need not be adjacent: they pool into one group at
    // the script's first-seen position, keeping row order.
    let ls = lines(&[
        "0041 ; Alpha",
        "0100..0101 ; Beta",
        "0043 ; Alpha",
    ]);
    let scripts = unicode_scripts(&ls);
    assert_eq!(scripts.len(), 2);
    assert_eq!(
        scripts[0],
        Range::Script { name: "Alpha".to_string(), code_points: vec![(0x41, 0x43)] }
    );
    assert_eq!(
        scripts[1],
        Range::Script { name: "Beta".to_string(), code_points: vec![(0x100, 0x101)] }
    );
}

#[test]
fn test_unicode_scripts_comment_and_blank_lines_ignored() {
    let ls = lines(&["# Scripts.txt", "", "00B7 ; Latin # a single point"]);
    let scripts = unicode_scripts(&ls);
    assert_eq!(
        scripts,
        vec![Range::Script { name: "Latin".to_string(), code_points: vec![(0xB7, 0xB7)] }]
    );
}
