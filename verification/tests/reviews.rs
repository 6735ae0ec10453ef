use codex_goals::reviews::{
    next_review_round, parse_review_round, render_review_output_file, review_file_name,
    ReviewFinding, ReviewOutput,
};

fn names(list: &[&str]) -> Vec<String> {
    list.iter().map(|name| name.to_string()).collect()
}

#[test]
fn rounds_are_read_from_file_names() {
    assert_eq!(parse_review_round("round-0002-review-result.md"), Some(2));
    assert_eq!(parse_review_round("round-12345-review-result.md"), Some(12345));
    assert_eq!(parse_review_round("round-+7-review-result.md"), Some(7));
    assert_eq!(parse_review_round("round-4294967295-review-result.md"), Some(u32::MAX));
    assert_eq!(parse_review_round("round-4294967296-review-result.md"), None);
    assert_eq!(parse_review_round("round-99999999999999999999999-review-result.md"), None);
    assert_eq!(parse_review_round("round--review-result.md"), None);
    assert_eq!(parse_review_round("round-review-result.md"), None);
    assert_eq!(parse_review_round("round-+-review-result.md"), None);
    assert_eq!(parse_review_round("round--1-review-result.md"), None);
    assert_eq!(parse_review_round("round- 1-review-result.md"), None);
    assert_eq!(parse_review_round("round-1_0-review-result.md"), None);
    assert_eq!(parse_review_round("round-1-review-result.md.bak"), None);
    assert_eq!(parse_review_round("a-round-1-review-result.md"), None);
    assert_eq!(parse_review_round(""), None);
}

#[test]
fn file_names_tell_their_rounds() {
    assert_eq!(review_file_name(2), "round-0002-review-result.md");
    for round in [0, 1, 9, 10, 99, 999, 1000, 9999, 10000, 123456, u32::MAX] {
        assert_eq!(parse_review_round(&review_file_name(round)), Some(round));
    }
}

#[test]
fn next_round_follows_the_highest() {
    assert_eq!(next_review_round(&names(&[])), 1);
    assert_eq!(next_review_round(&names(&["notes.md"])), 1);
    let listed = names(&[
        "round-0003-review-result.md",
        "notes.md",
        "round-0010-review-result.md",
        "round-0001-review-result.md",
    ]);
    let next = next_review_round(&listed);
    assert_eq!(next, 11);
    assert!(!listed.contains(&review_file_name(next)));
    let mut recorded = listed;
    recorded.push(review_file_name(next));
    assert_eq!(next_review_round(&recorded), 12);
    assert_eq!(next_review_round(&names(&["round-4294967295-review-result.md"])), u32::MAX);
}

#[test]
fn review_files_are_exact() {
    let finding = |priority: i32, title: &str| ReviewFinding {
        title: title.to_string(),
        body: "Body.".to_string(),
        confidence_score: "0.5".to_string(),
        priority,
        absolute_file_path: "/a/b.rs".to_string(),
        start_line: 1,
        end_line: 20,
    };
    let mut output = ReviewOutput {
        findings: vec![finding(-1, "First"), finding(2, "Second")],
        overall_correctness: "ok".to_string(),
        overall_explanation: "Why.".to_string(),
        overall_confidence_score: "1".to_string(),
    };
    let head = "# Review Round 12345\n\n- Overall correctness: `ok`\n- Overall confidence: `1`\n\n## Explanation\n\nWhy.\n";
    assert_eq!(
        render_review_output_file(12345, &output),
        format!(
            "{head}\n## Findings\n\n### [-1] First\n\nBody.\n\n- File: `/a/b.rs`\n- Lines: 1-20\n- Confidence: `0.5`\n\n### [2] Second\n\nBody.\n\n- File: `/a/b.rs`\n- Lines: 1-20\n- Confidence: `0.5`\n"
        )
    );
    output.findings.clear();
    assert_eq!(
        render_review_output_file(12345, &output),
        format!("{head}\n## Findings\n\nNone.\n")
    );
}
