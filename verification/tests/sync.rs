use typeholder::classify::classify_charset;
use typeholder::{
    parse_or_default, roster_from_names, synchronize, Family, Node, Range, SyncError,
};

fn elem(name: &str, children: Vec<Node>) -> Node {
    Node::Element { name: name.to_string(), attributes: vec![], children }
}

fn elem_attrs(name: &str, attrs: Vec<(&str, &str)>, children: Vec<Node>) -> Node {
    Node::Element {
        name: name.to_string(),
        attributes: attrs.iter().map(|(k, v)| (k.to_string(), v.to_string())).collect(),
        children,
    }
}

fn comment(t: &str) -> Node {
    Node::Comment { text: t.to_string() }
}

fn text_node(t: &str) -> Node {
    Node::Text { text: t.to_string() }
}

fn text_elem(name: &str, t: &str) -> Node {
    elem(name, vec![text_node(t)])
}

fn range_elem(a: &str, b: &str) -> Node {
    elem("range", vec![text_elem("int", a), text_elem("int", b)])
}

fn fam(name: &str) -> Family {
    Family { name: name.to_string(), stripped_ranges: vec![] }
}

fn alias_elem(name: &str, prefer: &[&str]) -> Node {
    elem(
        "alias",
        vec![
            text_elem("family", name),
            elem("prefer", prefer.iter().map(|p| text_elem("family", p)).collect()),
        ],
    )
}

fn scan_match_elem(family: &str, charset_children: Vec<Node>) -> Node {
    elem_attrs(
        "match",
        vec![("target", "scan")],
        vec![
            elem("test", vec![text_elem("string", family)]),
            elem("edit", vec![elem("minus", vec![elem("charset", charset_children)])]),
        ],
    )
}

fn doc(children: Vec<Node>) -> Vec<Node> {
    vec![elem("fontconfig", children)]
}

#[test]
fn test_add_family() {}

#[test]
fn test_residue_preservation() {
    let nodes = doc(vec![
        comment("typeholder"),
        alias_elem("sans-serif", &[]),
        text_node("\n  "),
        comment("a user comment"),
        elem("dir", vec![text_node("/usr/share/fonts")]),
    ]);
    let mut roster: Vec<Family> = vec![];
    let cfg = synchronize(nodes, &mut roster).unwrap();
    match cfg.residue {
        Node::Element { name, attributes, children } => {
            assert_eq!(name, "fontconfig");
            assert!(attributes.is_empty());
            assert_eq!(
                children,
                vec![
                    text_node("\n  "),
                    comment("a user comment"),
                    elem("dir", vec![text_node("/usr/share/fonts")]),
                ]
            );
        }
        other => panic!("residue root is not an element: {:?}", other),
    }
    assert_eq!(cfg.aliases.len(), 1);
}

#[test]
fn test_alias_resolution() {
    let nodes = doc(vec![comment("typeholder"), alias_elem("sans-serif", &["B", "Z", "A"])]);
    let mut roster = vec![fam("A"), fam("B"), fam("C")];
    let cfg = synchronize(nodes, &mut roster).unwrap();
    assert_eq!(cfg.aliases.len(), 1);
    assert_eq!(cfg.aliases[0].name, "sans-serif");
    // B then A, as indices into the roster; Z is silently dropped.
    assert_eq!(cfg.aliases[0].prefer_list, vec![1usize, 0usize]);
}

#[test]
fn test_scan_match_mutation_visibility() {
    let nodes = doc(vec![
        comment("typeholder"),
        alias_elem("sans-serif", &["F"]),
        comment("typeholder"),
        scan_match_elem(
            "F",
            vec![comment("Basic Latin,Block"), range_elem("0x0000", "0x007F")],
        ),
    ]);
    let mut roster = vec![fam("F")];
    let cfg = synchronize(nodes, &mut roster).unwrap();
    assert_eq!(cfg.scan_matches, vec![0usize]);
    assert_eq!(cfg.aliases[0].prefer_list, vec![0usize]);
    let expected = vec![Range::Block { name: "Basic Latin".to_string(), code_points: (0x0, 0x7F) }];
    // Both reference sites denote the same roster slot, so both observe the
    // post-mutation ranges.
    assert_eq!(roster[cfg.scan_matches[0]].stripped_ranges, expected);
    assert_eq!(roster[cfg.aliases[0].prefer_list[0]].stripped_ranges, expected);
}

#[test]
fn test_classification_grouping() {
    let children = vec![
        comment("Latin,Script"),
        range_elem("0x41", "0x5A"),
        comment("nil,Custom"),
        range_elem("0x30", "0x39"),
    ];
    let ranges = classify_charset(&children).unwrap();
    assert_eq!(
        ranges,
        vec![
            Range::Script { name: "Latin".to_string(), code_points: vec![(0x41, 0x5A)] },
            Range::Custom { name: "nil".to_string(), code_points: (0x30, 0x39) },
        ]
    );
}

#[test]
fn test_classification_trims_comment_keys() {
    let children = vec![comment("  Latin , Script  "), range_elem("0x41", "0x5A")];
    let ranges = classify_charset(&children).unwrap();
    assert_eq!(
        ranges,
        vec![Range::Script { name: "Latin".to_string(), code_points: vec![(0x41, 0x5A)] }]
    );
}

#[test]
fn test_classification_range_before_comment_is_custom() {
    let children = vec![range_elem("0x30", "0x39")];
    let ranges = classify_charset(&children).unwrap();
    assert_eq!(
        ranges,
        vec![Range::Custom { name: "nil".to_string(), code_points: (0x30, 0x39) }]
    );
}

#[test]
fn test_classification_bad_comment_is_fatal() {
    let children = vec![comment("no comma here")];
    let err = classify_charset(&children).unwrap_err();
    assert_eq!(
        err,
        SyncError::InvalidRecord { element: "charset".to_string(), missing: "comment".to_string() }
    );
}

#[test]
fn test_classification_wrong_int_count_is_fatal() {
    let children = vec![
        comment("Latin,Script"),
        elem("range", vec![text_elem("int", "0x41")]),
    ];
    let err = classify_charset(&children).unwrap_err();
    assert_eq!(
        err,
        SyncError::InvalidRecord { element: "range".to_string(), missing: "int".to_string() }
    );
}

#[test]
fn test_classification_bad_hex_is_fatal() {
    let children = vec![comment("Latin,Script"), range_elem("0xzz", "0x41")];
    let err = classify_charset(&children).unwrap_err();
    assert_eq!(
        err,
        SyncError::InvalidRecord { element: "int".to_string(), missing: "hex".to_string() }
    );
}

#[test]
fn test_classification_short_int_text_is_fatal() {
    let children = vec![comment("Latin,Script"), range_elem("0", "0x41")];
    let err = classify_charset(&children).unwrap_err();
    assert_eq!(
        err,
        SyncError::InvalidRecord { element: "int".to_string(), missing: "hex".to_string() }
    );
}

#[test]
fn test_classification_multi_interval_block_is_fatal() {
    let children = vec![
        comment("Basic Latin,Block"),
        range_elem("0x00", "0x7F"),
        range_elem("0x80", "0xFF"),
    ];
    let err = classify_charset(&children).unwrap_err();
    assert_eq!(
        err,
        SyncError::InvalidRecord { element: "charset".to_string(), missing: "Block".to_string() }
    );
}

#[test]
fn test_classification_hex_accepts_both_cases() {
    let children = vec![comment("Latin,Script"), range_elem("0x00fF", "0x00Ff")];
    let ranges = classify_charset(&children).unwrap();
    assert_eq!(
        ranges,
        vec![Range::Script { name: "Latin".to_string(), code_points: vec![(0xFF, 0xFF)] }]
    );
}

#[test]
fn test_default_fallback() {
    let mut roster: Vec<Family> = vec![];
    let cfg = parse_or_default(None, &mut roster).unwrap();
    assert_eq!(cfg.scan_matches.len(), 0);
    let names: Vec<&str> = cfg.aliases.iter().map(|a| a.name.as_str()).collect();
    assert_eq!(names, vec!["sans-serif", "serif", "monospace"]);
    for a in &cfg.aliases {
        assert!(a.prefer_list.is_empty());
    }
}

#[test]
fn test_fatal_on_malformed_record() {
    let xml = "<fontconfig><!--typeholder--><alias></alias></fontconfig>";
    let mut roster: Vec<Family> = vec![];
    let err = parse_or_default(Some(xml), &mut roster).unwrap_err();
    assert_eq!(
        err,
        SyncError::InvalidRecord { element: "alias".to_string(), missing: "family".to_string() }
    );
}

#[test]
fn test_malformed_document() {
    let mut roster: Vec<Family> = vec![];
    let err = parse_or_default(Some("<fontconfig><dir>"), &mut roster).unwrap_err();
    assert!(matches!(err, SyncError::MalformedDocument { .. }));
}

#[test]
fn test_invalid_root() {
    let mut roster: Vec<Family> = vec![];
    let xml = "<?xml version=\"1.0\"?><!--leading--><fontconfig></fontconfig>";
    let err = parse_or_default(Some(xml), &mut roster).unwrap_err();
    assert_eq!(err, SyncError::InvalidRoot);
}

#[test]
fn test_parse_preserves_attributes_and_subtrees() {
    let xml = "<fontconfig version=\"2\"><dir prefix=\"xdg\">fonts</dir></fontconfig>";
    let mut roster: Vec<Family> = vec![];
    let cfg = parse_or_default(Some(xml), &mut roster).unwrap();
    match cfg.residue {
        Node::Element { name, attributes, children } => {
            assert_eq!(name, "fontconfig");
            assert_eq!(attributes, vec![("version".to_string(), "2".to_string())]);
            assert_eq!(
                children,
                vec![elem_attrs("dir", vec![("prefix", "xdg")], vec![text_node("fonts")])]
            );
        }
        other => panic!("residue root is not an element: {:?}", other),
    }
}

#[test]
fn test_parse_managed_sections_from_text() {
    let xml = "<fontconfig><!--typeholder--><alias><family>sans-serif</family><prefer><family>DejaVu Sans</family></prefer></alias></fontconfig>";
    let mut roster = vec![fam("DejaVu Sans")];
    let cfg = parse_or_default(Some(xml), &mut roster).unwrap();
    assert_eq!(cfg.aliases.len(), 1);
    assert_eq!(cfg.aliases[0].name, "sans-serif");
    assert_eq!(cfg.aliases[0].prefer_list, vec![0usize]);
}

#[test]
fn test_scan_match_unknown_family_skipped() {
    // The record names a family absent from the roster: it is skipped
    // silently, and its edit path is not even inspected.
    let bad_match = elem_attrs(
        "match",
        vec![("target", "scan")],
        vec![elem("test", vec![text_elem("string", "Zzz")])],
    );
    let nodes = doc(vec![comment("typeholder"), bad_match]);
    let mut roster = vec![fam("F")];
    let cfg = synchronize(nodes, &mut roster).unwrap();
    assert!(cfg.scan_matches.is_empty());
    assert!(roster[0].stripped_ranges.is_empty());
}

#[test]
fn test_scan_match_known_family_needs_charset() {
    // For a known family the edit/minus/charset path is mandatory.
    let bad_match = elem_attrs(
        "match",
        vec![("target", "scan")],
        vec![elem("test", vec![text_elem("string", "F")])],
    );
    let nodes = doc(vec![comment("typeholder"), bad_match]);
    let mut roster = vec![fam("F")];
    let err = synchronize(nodes, &mut roster).unwrap_err();
    assert_eq!(
        err,
        SyncError::InvalidRecord { element: "match".to_string(), missing: "edit".to_string() }
    );
}

#[test]
fn test_managed_match_with_other_target_dropped() {
    let other_match = elem_attrs("match", vec![("target", "font")], vec![]);
    let nodes = doc(vec![comment("typeholder"), other_match]);
    let mut roster: Vec<Family> = vec![];
    let cfg = synchronize(nodes, &mut roster).unwrap();
    assert!(cfg.scan_matches.is_empty());
    match cfg.residue {
        Node::Element { children, .. } => assert!(children.is_empty()),
        other => panic!("residue root is not an element: {:?}", other),
    }
}

#[test]
fn test_marker_without_following_element_is_dropped() {
    let nodes = doc(vec![comment("typeholder"), text_node("tail")]);
    let mut roster: Vec<Family> = vec![];
    let cfg = synchronize(nodes, &mut roster).unwrap();
    match cfg.residue {
        Node::Element { children, .. } => assert_eq!(children, vec![text_node("tail")]),
        other => panic!("residue root is not an element: {:?}", other),
    }
}

#[test]
fn test_element_not_directly_after_marker_is_residue() {
    // Whitespace text between the marker and the element breaks the managed
    // link: the nearest preceding sibling must be the marker comment itself.
    let nodes = doc(vec![comment("typeholder"), text_node(" "), alias_elem("x", &[])]);
    let mut roster: Vec<Family> = vec![];
    let cfg = synchronize(nodes, &mut roster).unwrap();
    assert!(cfg.aliases.is_empty());
    match cfg.residue {
        Node::Element { children, .. } => assert_eq!(children.len(), 2),
        other => panic!("residue root is not an element: {:?}", other),
    }
}

#[test]
fn test_duplicate_aliases_preserved() {
    let nodes = doc(vec![
        comment("typeholder"),
        alias_elem("serif", &[]),
        comment("typeholder"),
        alias_elem("serif", &[]),
    ]);
    let mut roster: Vec<Family> = vec![];
    let cfg = synchronize(nodes, &mut roster).unwrap();
    assert_eq!(cfg.aliases.len(), 2);
    assert_eq!(cfg.aliases[0].name, "serif");
    assert_eq!(cfg.aliases[1].name, "serif");
}

#[test]
fn test_empty_document_children_is_invalid_root() {
    let mut roster: Vec<Family> = vec![];
    let err = synchronize(vec![], &mut roster).unwrap_err();
    assert_eq!(err, SyncError::InvalidRoot);
}

#[test]
fn test_roster_from_names_filters_generics() {
    let names = vec![
        "Sans".to_string(),
        "Arial".to_string(),
        "Serif".to_string(),
        "DejaVu Sans".to_string(),
        "Monospace".to_string(),
    ];
    let roster = roster_from_names(names);
    let kept: Vec<&str> = roster.iter().map(|f| f.name.as_str()).collect();
    assert_eq!(kept, vec!["Arial", "DejaVu Sans"]);
    for f in &roster {
        assert!(f.stripped_ranges.is_empty());
    }
}

#[test]
fn test_hex_largest_value_parses() {
    let children = vec![comment("Latin,Script"), range_elem("0x7FFFFFFF", "0x7fffffff")];
    let ranges = classify_charset(&children).unwrap();
    assert_eq!(
        ranges,
        vec![Range::Script { name: "Latin".to_string(), code_points: vec![(0x7FFFFFFF, 0x7FFFFFFF)] }]
    );
}

#[test]
fn test_hex_overflowing_value_is_fatal() {
    let children = vec![comment("Latin,Script"), range_elem("0x80000000", "0x80000001")];
    let err = classify_charset(&children).unwrap_err();
    assert_eq!(
        err,
        SyncError::InvalidRecord { element: "int".to_string(), missing: "hex".to_string() }
    );
}

#[test]
fn test_repeated_equal_comment_continues_group() {
    // A comment declaring the key the run already has does not break the
    // run: both ranges land in one Script group.
    let children = vec![
        comment("Latin,Script"),
        range_elem("0x41", "0x5A"),
        comment("Latin,Script"),
        range_elem("0x61", "0x7A"),
    ];
    let ranges = classify_charset(&children).unwrap();
    assert_eq!(
        ranges,
        vec![Range::Script { name: "Latin".to_string(), code_points: vec![(0x41, 0x5A), (0x61, 0x7A)] }]
    );
}

#[test]
fn test_empty_charset_clears_ranges() {
    let nodes = doc(vec![comment("typeholder"), scan_match_elem("F", vec![])]);
    let mut roster = vec![Family {
        name: "F".to_string(),
        stripped_ranges: vec![Range::Custom { name: "old".to_string(), code_points: (0, 1) }],
    }];
    let cfg = synchronize(nodes, &mut roster).unwrap();
    assert_eq!(cfg.scan_matches, vec![0usize]);
    assert!(roster[0].stripped_ranges.is_empty());
}

#[test]
fn test_second_scan_match_replaces_ranges() {
    let nodes = doc(vec![
        comment("typeholder"),
        scan_match_elem("F", vec![comment("One,Custom"), range_elem("0x1", "0x2")]),
        comment("typeholder"),
        scan_match_elem("F", vec![comment("Two,Custom"), range_elem("0x3", "0x4")]),
    ]);
    let mut roster = vec![fam("F")];
    let cfg = synchronize(nodes, &mut roster).unwrap();
    assert_eq!(cfg.scan_matches, vec![0usize, 0usize]);
    assert_eq!(
        roster[0].stripped_ranges,
        vec![Range::Custom { name: "Two".to_string(), code_points: (0x3, 0x4) }]
    );
}

#[test]
fn test_alias_missing_prefer_is_fatal() {
    let bad_alias = elem("alias", vec![text_elem("family", "serif")]);
    let nodes = doc(vec![comment("typeholder"), bad_alias]);
    let mut roster: Vec<Family> = vec![];
    let err = synchronize(nodes, &mut roster).unwrap_err();
    assert_eq!(
        err,
        SyncError::InvalidRecord { element: "alias".to_string(), missing: "prefer".to_string() }
    );
}
