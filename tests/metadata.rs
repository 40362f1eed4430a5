use git_disjoint::issue_group::Commit;
use git_disjoint::pull_request_message::{pull_request_template, PULL_REQUEST_HEADER};
use git_disjoint::pull_request_metadata::{
    split_lines, trim, truncate, FromStrError, PullRequestMetadata, IGNORE_MARKER,
};

#[test]
fn title_and_body_from_a_commit_message() {
    let m = PullRequestMetadata::from_str("  Add thing  \n\nIt does stuff.\nMore.\n\n").unwrap();
    assert_eq!(m.title, "Add thing");
    assert_eq!(m.body, "It does stuff.\nMore.");
}

#[test]
fn a_one_line_message_has_an_empty_body() {
    let m = PullRequestMetadata::from_str("Only a title").unwrap();
    assert_eq!(m.title, "Only a title");
    assert_eq!(m.body, "");
}

#[test]
fn an_empty_message_is_an_error() {
    assert_eq!(PullRequestMetadata::from_str(""), Err(FromStrError::EmptyPullRequestMessage));
}

#[test]
fn the_body_stops_at_the_ignore_marker() {
    let text = format!("T\nbody\n{}\nignored\n", IGNORE_MARKER);
    let m = PullRequestMetadata::from_str(&text).unwrap();
    assert_eq!(m.title, "T");
    assert_eq!(m.body, "body");
}

#[test]
fn edited_text_is_cut_at_the_marker() {
    let text = format!("Title here\n\nDescription\r\n{}\nChanges:\n", IGNORE_MARKER);
    let m = PullRequestMetadata::from_edited_text(&text).unwrap();
    assert_eq!(m.title, "Title here");
    assert_eq!(m.body, "Description");
}

#[test]
fn edited_text_with_nothing_above_the_marker_is_an_error() {
    let text = format!("{}\nwhatever\n", IGNORE_MARKER);
    assert_eq!(
        PullRequestMetadata::from_edited_text(&text),
        Err(FromStrError::EmptyPullRequestMessage)
    );
    assert!(PullRequestMetadata::from_edited_text("").is_err());
}

#[test]
fn lines_split_like_std() {
    for s in ["", "a", "a\n", "a\n\nb", "\n", "a\r\nb\r\n", "x\r", "a\n\n"] {
        let expected: Vec<String> = s.lines().map(|l| l.to_string()).collect();
        assert_eq!(split_lines(s), expected, "text {:?}", s);
    }
}

#[test]
fn trim_like_std() {
    for s in ["", "  ", " a b ", "\u{3000}x\u{85}", "\tq\n"] {
        assert_eq!(trim(s), s.trim());
    }
}

#[test]
fn truncate_counts_characters() {
    assert_eq!(truncate("0123456789abcdef", 7), "0123456");
    assert_eq!(truncate("abc", 7), "abc");
    assert_eq!(truncate("ééééééééé", 7), "ééééééé");
}

#[test]
fn template_lists_each_commit() {
    let commits = vec![
        Commit::new(
            "0123456789abcdef".to_string(),
            Some("first".to_string()),
            Some("first\n\nbody".to_string()),
            Some("Ann \"A\"".to_string()),
        ),
        Commit::new("fedcba9".to_string(), Some("second".to_string()), None, None),
    ];
    let text = pull_request_template(&commits);
    let expected = format!(
        "{}\n0123456 (\"Ann \\\"A\\\"\")\n    first\n    \n    body\n\nfedcba9 (\"\")\n\n",
        PULL_REQUEST_HEADER
    );
    assert_eq!(text, expected);
    let m = PullRequestMetadata::from_edited_text(&format!("My title\nMy body\n{}", text)).unwrap();
    assert_eq!(m.title, "My title");
    assert_eq!(m.body, "My body");
}

#[test]
fn metadata_error_in_words() {
    assert_eq!(FromStrError::EmptyPullRequestMessage.to_string(), "pull request metadata is empty");
}

#[test]
fn a_commit_message_keeps_every_line_of_its_body() {
    let text = format!("Title\n\nfirst\n{}\nlast\n", IGNORE_MARKER);
    let m = PullRequestMetadata::from_commit_message(&text).unwrap();
    assert_eq!(m.title, "Title");
    assert_eq!(m.body, format!("first\n{}\nlast", IGNORE_MARKER));
    assert!(PullRequestMetadata::from_commit_message("").is_err());
}
