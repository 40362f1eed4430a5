use git_disjoint::issue::Issue;
use git_disjoint::issue_group::{GitCommitSummary, IssueGroup};
use regex::Regex;

fn parses(message: &str, expected: Issue) {
    let issue = Issue::parse_from_commit_message(message);
    assert!(issue.is_some(), "Expected to parse issue from commit message");
    assert_eq!(issue.unwrap(), expected);
}

#[test]
fn display_jira_issue() {
    let issue = Issue::Jira("GD-0".to_string());
    assert_eq!(issue.to_string(), "Jira GD-0");
}

#[test]
fn display_github_issue() {
    let issue = Issue::GitHub("123".to_string());
    assert_eq!(issue.to_string(), "GitHub #123");
}

#[test]
fn display_human_readable_issue() {
    let group = IssueGroup::Issue(Issue::Jira("COOL-123".to_string()));
    assert_eq!("Jira COOL-123", group.to_string());
}

#[test]
fn display_human_readable_commit() {
    let group = IssueGroup::Commit(GitCommitSummary(String::from("this is a cool summary")));
    assert_eq!("this is a cool summary", group.to_string());
}

#[test]
fn unnsuccessfully_parse_from_commit_message() {
    let message = "feat(foo): add hyperdrive";
    let issue = Issue::parse_from_commit_message(message);
    assert!(
        issue.is_none(),
        "Expected to find no issue to parse from commit message"
    );
}

#[test]
fn successfully_parse_jira_ticket_from_commit_message_without_newline() {
    parses(
        "\nfeat(foo): add hyperdrive\n\nTicket: AB-123     \n",
        Issue::Jira("AB-123".to_string()),
    );
}

#[test]
fn successfully_parse_jira_ticket_from_commit_message_with_newline() {
    parses(
        "\nfeat(foo): add hyperdrive\n\nTicket: AB-123\n        \n",
        Issue::Jira("AB-123".to_string()),
    );
}

#[test]
fn successfully_parse_jira_ticket_from_commit_message_with_trailer() {
    parses(
        "\nfeat(foo): add hyperdrive\n\nTicket: AB-123\nFooter: http://example.com\n",
        Issue::Jira("AB-123".to_string()),
    );
}

#[test]
fn successfully_parse_jira_ticket_closes_ticket_from_commit_message_without_newline() {
    parses(
        "\nfeat(foo): add hyperdrive\n\nCloses Ticket: AB-123\n",
        Issue::Jira("AB-123".to_string()),
    );
}

#[test]
fn successfully_parse_jira_ticket_closes_ticket_from_commit_message_with_newline() {
    parses(
        "\nfeat(foo): add hyperdrive\n\nCloses Ticket: AB-123\n\n",
        Issue::Jira("AB-123".to_string()),
    );
}

#[test]
fn successfully_parse_jira_ticket_closes_ticket_from_commit_message_with_trailer() {
    parses(
        "\nfeat(foo): add hyperdrive\n\nCloses Ticket: AB-123\nFooter: http://example.com\n",
        Issue::Jira("AB-123".to_string()),
    );
}

#[test]
fn successfully_parse_github_issue_from_commit_message_without_newline() {
    parses(
        "\nfeat(foo): add hyperdrive\n\nCloses #123\n",
        Issue::GitHub("123".to_string()),
    );
}

#[test]
fn successfully_parse_github_issue_from_commit_message_with_trailer() {
    parses(
        "\nfeat(foo): add hyperdrive\n\nCloses #123\n            Footer: http://example.com\n",
        Issue::GitHub("123".to_string()),
    );
}

#[test]
fn successfully_parse_github_issue_closes_ticket_from_commit_message_with_newline() {
    parses(
        "\nfeat(foo): add hyperdrive\n\nCloses #123\n\n",
        Issue::GitHub("123".to_string()),
    );
}

#[test]
fn ticket_wins_over_closing_trailer() {
    parses("Fixes #7\nTicket: XY-9\n", Issue::Jira("XY-9".to_string()));
}

#[test]
fn closing_keywords_ignore_case() {
    parses("FIXED #42", Issue::GitHub("42".to_string()));
    parses("close\t#5 trailing", Issue::GitHub("5".to_string()));
    parses("cloſed #6", Issue::GitHub("6".to_string()));
}

#[test]
fn trailers_must_start_a_line() {
    assert!(Issue::parse_from_commit_message("see Ticket: AB-1").is_none());
    assert!(Issue::parse_from_commit_message("x closes #3").is_none());
    assert!(Issue::parse_from_commit_message("ticket: AB-1").is_none());
    assert!(Issue::parse_from_commit_message("Ticket:AB-1").is_none());
    assert!(Issue::parse_from_commit_message("Closes #").is_none());
    assert!(Issue::parse_from_commit_message("").is_none());
}

#[test]
fn issue_identifier_drops_the_kind() {
    assert_eq!(Issue::Jira("AB-1".to_string()).issue_identifier(), "AB-1");
    assert_eq!(Issue::GitHub("17".to_string()).issue_identifier(), "17");
}

#[test]
fn parse_is_the_same_every_time() {
    let message = "fix\n\nCloses Ticket: ZZ-3\n";
    assert_eq!(
        Issue::parse_from_commit_message(message),
        Issue::parse_from_commit_message(message)
    );
}

#[test]
fn grammar_agrees_with_the_regular_expressions() {
    let jira = Regex::new(r"(?m)^(?:Closes )?Ticket:\s+(\S+)").unwrap();
    let github = Regex::new(r"(?im)^(?:closes|close|closed|fixes|fixed)\s+#(\d+)").unwrap();
    let messages = [
        "Ticket: A-1",
        "Ticket:\n\nB-2 tail",
        "x\r\nTicket: C-3\r\n",
        "Closes Ticket:   D-4\u{a0}more",
        "Closes Ticket:\u{3000}E-5",
        "closes #12\nTicket: F-6",
        "fixes #\u{661}\u{662}3 x",
        "FiXeS   #99",
        "closed#1",
        "close #1a",
        "Closed\n#2",
        "\nfixed #0\n",
        "Ticket: ",
        "Ticket:",
        "nothing here",
        "  Ticket: G-7",
        "Closes Ticket: H-8\nTicket: I-9",
    ];
    for m in messages {
        let expected = if let Some(c) = jira.captures(m) {
            Some(Issue::Jira(c[1].to_string()))
        } else {
            github.captures(m).map(|c| Issue::GitHub(c[1].to_string()))
        };
        assert_eq!(Issue::parse_from_commit_message(m), expected, "message {:?}", m);
    }
}
