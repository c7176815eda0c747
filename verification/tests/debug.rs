use kaioken::debug::{json_body_lines, plain_body_lines};

#[test]
fn json_bodies_are_indented() {
    let lines = json_body_lines("{\"a\":1,\"b\":[true]}", usize::MAX).unwrap();
    assert_eq!(lines, vec!["{", "  \"a\": 1,", "  \"b\": [", "    true", "  ]", "}"]);
    assert!(json_body_lines("not json", usize::MAX).is_none());
}

#[test]
fn long_json_bodies_are_capped_with_a_count() {
    let arr: Vec<String> = (0..200).map(|i| i.to_string()).collect();
    let text = format!("[{}]", arr.join(","));
    let lines = json_body_lines(&text, 100).unwrap();
    assert_eq!(lines.len(), 101);
    assert_eq!(lines[0], "[");
    assert_eq!(lines[99], "  98,");
    assert_eq!(lines[100], "... (102 more lines)");
}

#[test]
fn plain_bodies_keep_fifty_cut_lines() {
    let long = "x".repeat(250);
    let text = format!("{}\r\nshort\n", long);
    let lines = plain_body_lines(&text);
    assert_eq!(lines, vec![format!("{}...", "x".repeat(200)), "short".to_string()]);
    let many: Vec<String> = (0..60).map(|i| format!("line {}", i)).collect();
    let lines = plain_body_lines(&many.join("\n"));
    assert_eq!(lines.len(), 51);
    assert_eq!(lines[49], "line 49");
    assert_eq!(lines[50], "... (10 more lines)");
}
