use usestakly::github::parse_github_repo_input;

#[test]
fn parse_parses_owner_repo() {
    let (owner, repo) = parse_github_repo_input("openai/gpt").unwrap();
    assert_eq!(owner, "openai");
    assert_eq!(repo, "gpt");
}

#[test]
fn parse_parses_url_with_query_and_git_suffix() {
    let (owner, repo) =
        parse_github_repo_input("https://github.com/openai/gpt.git?tab=readme").unwrap();
    assert_eq!(owner, "openai");
    assert_eq!(repo, "gpt");
}

#[test]
fn parse_rejects_extra_segments() {
    assert!(parse_github_repo_input("openai/gpt/issues").is_err());
}

#[test]
fn github_parses_owner_repo() {
    let (owner, repo) = parse_github_repo_input("openai/gpt").unwrap();
    assert_eq!(owner, "openai");
    assert_eq!(repo, "gpt");
}

#[test]
fn github_parses_url_with_query_and_git_suffix() {
    let (owner, repo) =
        parse_github_repo_input("https://github.com/openai/gpt.git?tab=readme").unwrap();
    assert_eq!(owner, "openai");
    assert_eq!(repo, "gpt");
}

#[test]
fn github_rejects_extra_segments() {
    assert!(parse_github_repo_input("openai/gpt/issues").is_err());
}

#[test]
fn parse_reports_each_error_message() {
    let err = parse_github_repo_input("   / ").unwrap_err();
    assert_eq!(err.status, 400);
    assert_eq!(err.message, "repo is required (GitHub URL or owner/repo)");
    let err = parse_github_repo_input("github.com/openai").unwrap_err();
    assert_eq!(err.message, "repo must include owner/repo");
    let err = parse_github_repo_input("openai/gpt/issues").unwrap_err();
    assert_eq!(err.message, "repo must be a GitHub URL or owner/repo");
    let err = parse_github_repo_input("open ai/gpt").unwrap_err();
    assert_eq!(err.message, "repo must not contain whitespace");
}

#[test]
fn parse_strips_prefixes_fragments_and_repeated_git_suffixes() {
    let (owner, repo) = parse_github_repo_input("  http://github.com/rust-lang/rust.git.git#readme/ ").unwrap();
    assert_eq!(owner, "rust-lang");
    assert_eq!(repo, "rust");
    let (owner, repo) = parse_github_repo_input("github.com//tokio-rs//tokio//").unwrap();
    assert_eq!(owner, "tokio-rs");
    assert_eq!(repo, "tokio");
}
