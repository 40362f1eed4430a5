use git_disjoint::commands::{checkout_previous, cherry_pick, push};
use git_disjoint::github::{
    base_ref, get_user_remote, is_parse_safe_url, GithubRepositoryMetadata, TryDefaultError,
};

#[test]
fn the_fork_is_preferred_over_origin() {
    let remotes = vec!["origin".to_string(), "fork".to_string()];
    assert_eq!(get_user_remote(&remotes), Some("fork".to_string()));
    let remotes = vec!["upstream".to_string(), "origin".to_string()];
    assert_eq!(get_user_remote(&remotes), Some("origin".to_string()));
    assert_eq!(get_user_remote(&vec!["upstream".to_string()]), None);
}

#[test]
fn coordinates_come_from_the_remote_urls() {
    let remotes = vec!["origin".to_string(), "fork".to_string()];
    let m = GithubRepositoryMetadata::from_remotes(
        &remotes,
        "git@github.com:upstream-org/project.git",
        "https://github.com/me/project.git",
    )
    .unwrap();
    assert_eq!(m.owner, "upstream-org");
    assert_eq!(m.name, "project");
    assert_eq!(m.remote, "fork");
    assert_eq!(m.forker, "me");
    assert_eq!(m.repository_url(), "https://api.github.com/repos/upstream-org/project");
    assert_eq!(m.pulls_url(), "https://api.github.com/repos/upstream-org/project/pulls");
    assert_eq!(m.head("AB-1-fix"), "me:AB-1-fix");
}

#[test]
fn missing_remotes_and_bad_urls_are_errors() {
    let none: Vec<String> = vec!["upstream".to_string()];
    assert_eq!(
        GithubRepositoryMetadata::from_remotes(&none, "git@github.com:o/p.git", "git@github.com:o/p.git").err(),
        Some(TryDefaultError::AmbiguousGitRemote)
    );
    let origin = vec!["origin".to_string()];
    assert_eq!(
        GithubRepositoryMetadata::from_remotes(&origin, "git@github.com:o/p\0.git", "git@github.com:o/p.git").err(),
        Some(TryDefaultError::ParseGitUrl)
    );
    assert_eq!(
        GithubRepositoryMetadata::from_remotes(&origin, "", "git@github.com:o/p.git").err(),
        Some(TryDefaultError::MissingOwner)
    );
    assert_eq!(
        GithubRepositoryMetadata::from_remotes(&origin, "git@github.com:o/p.git", "git@github.com:o/p\0.git").err(),
        Some(TryDefaultError::ParseGitUrl)
    );
}

#[test]
fn base_ref_is_on_origin() {
    assert_eq!(base_ref("main"), "origin/main");
}

#[test]
fn git_command_lines() {
    assert_eq!(cherry_pick("abc123"), vec!["git", "cherry-pick", "--allow-empty", "abc123"]);
    assert_eq!(push("fork", "AB-1-x"), vec!["git", "push", "fork", "AB-1-x"]);
    assert_eq!(checkout_previous(), vec!["git", "checkout", "-"]);
}

#[test]
fn metadata_errors_in_words() {
    assert_eq!(TryDefaultError::ParseGitUrl.to_string(), "unable to parse git remote");
    assert_eq!(TryDefaultError::MissingOwner.to_string(), "git remote names no owner");
    assert!(TryDefaultError::AmbiguousGitRemote.to_string().contains("'fork' or 'origin'"));
}

#[test]
fn urls_that_would_panic_the_parser_are_refused() {
    for url in [
        "https://dev.azure.com/x",
        "git@ssh.dev.azure.com:v3",
        "https://DEV.AZURE.com/a/b/c",
        "ssh://h/?q",
        "ssh://h/x/..",
        "git@h:.",
        "ssh:x",
        "https://h/%2e",
        "https://h/a b",
    ] {
        assert!(!is_parse_safe_url(url), "{:?}", url);
    }
    for url in ["https://github.com/o/r.git", "git@github.com:o/r.git", "ssh://git@github.com/o/r.git"] {
        assert!(is_parse_safe_url(url), "{:?}", url);
    }
    let origin = vec!["origin".to_string()];
    assert_eq!(
        GithubRepositoryMetadata::from_remotes(&origin, "https://dev.azure.com/x", "git@github.com:o/p.git").err(),
        Some(TryDefaultError::ParseGitUrl)
    );
    assert_eq!(
        GithubRepositoryMetadata::from_remotes(&origin, "git@github.com:o/p.git", "git@ssh.dev.azure.com:v3").err(),
        Some(TryDefaultError::ParseGitUrl)
    );
}
