use schnauzer::extract::{extract_requirements, parse_template, ExtractionError};
use schnauzer::repo::GitRepo;

fn names(text: &str) -> Vec<(String, Option<String>)> {
    extract_requirements(text)
        .unwrap()
        .into_iter()
        .map(|r| (r.name, r.version))
        .collect()
}

#[test]
fn template_without_delimiter_declares_nothing() {
    let parsed = parse_template("hello {{settings.motd}}\n").unwrap();
    assert!(parsed.requirements.is_empty());
    assert_eq!(parsed.body, "hello {{settings.motd}}\n");
}

#[test]
fn declarations_with_and_without_versions() {
    let text = "kubernetes = \"v1\"\n  ecs\n\nnetwork=\"v2\"  \n+++\nbody";
    assert_eq!(
        names(text),
        vec![
            ("kubernetes".to_string(), Some("v1".to_string())),
            ("ecs".to_string(), None),
            ("network".to_string(), Some("v2".to_string())),
        ]
    );
    assert_eq!(parse_template(text).unwrap().body, "body");
}

#[test]
fn empty_declaration_block() {
    let parsed = parse_template("+++\nplain").unwrap();
    assert!(parsed.requirements.is_empty());
    assert_eq!(parsed.body, "plain");
}

#[test]
fn delimiter_with_trailing_blanks_and_crlf() {
    let parsed = parse_template("aws = \"v1\"\r\n+++  \r\nline\r\n").unwrap();
    assert_eq!(parsed.requirements.len(), 1);
    assert_eq!(parsed.requirements[0].name, "aws");
    assert_eq!(parsed.requirements[0].version.as_deref(), Some("v1"));
    assert_eq!(parsed.body, "line\r\n");
}

#[test]
fn delimiter_on_last_line_gives_empty_body() {
    let parsed = parse_template("ecs\n+++").unwrap();
    assert_eq!(parsed.requirements.len(), 1);
    assert_eq!(parsed.body, "");
}

#[test]
fn only_first_delimiter_ends_the_block() {
    let parsed = parse_template("ecs\n+++\na\n+++\nb").unwrap();
    assert_eq!(parsed.requirements.len(), 1);
    assert_eq!(parsed.body, "a\n+++\nb");
}

#[test]
fn repeated_declaration_is_kept_once() {
    assert_eq!(
        names("ecs = \"v1\"\naws\necs = \"v1\"\naws\n+++\n"),
        vec![
            ("ecs".to_string(), Some("v1".to_string())),
            ("aws".to_string(), None),
        ]
    );
}

#[test]
fn conflicting_versions_are_refused() {
    match extract_requirements("ecs = \"v1\"\necs = \"v2\"\n+++\n") {
        Err(ExtractionError::ConflictingVersions(name)) => assert_eq!(name, "ecs"),
        other => panic!("unexpected: {:?}", other),
    }
    match extract_requirements("ecs\necs = \"v2\"\n+++\n") {
        Err(ExtractionError::ConflictingVersions(name)) => assert_eq!(name, "ecs"),
        other => panic!("unexpected: {:?}", other),
    }
}

#[test]
fn malformed_declarations_fail_extraction() {
    for (text, line) in [
        ("kubernetes v1\n+++\n", "kubernetes v1"),
        ("= \"v1\"\n+++\n", "= \"v1\""),
        ("ecs = v1\n+++\n", "ecs = v1"),
        ("ecs = \"v1\n+++\n", "ecs = \"v1"),
        ("ecs = \"v1\" extra\n+++\n", "ecs = \"v1\" extra"),
        ("ok\nbad.name\n+++\n", "bad.name"),
        ("ecs =\n+++\n", "ecs ="),
    ] {
        match extract_requirements(text) {
            Err(ExtractionError::MalformedDeclaration(l)) => assert_eq!(l, line),
            other => panic!("unexpected for {:?}: {:?}", text, other),
        }
    }
}

#[test]
fn extraction_is_deterministic() {
    let text = "b\na = \"v3\"\nc\n+++\n{{settings.a}}";
    let first = names(text);
    for _ in 0..5 {
        assert_eq!(names(text), first);
    }
    assert_eq!(
        first,
        vec![
            ("b".to_string(), None),
            ("a".to_string(), Some("v3".to_string())),
            ("c".to_string(), None),
        ]
    );
}

#[test]
fn non_ascii_body_is_kept() {
    let parsed = parse_template("ecs\n+++\nnaïve ☃ {{settings.ecs}}").unwrap();
    assert_eq!(parsed.body, "naïve ☃ {{settings.ecs}}");
}

#[test]
fn git_repo_reference_splits_at_the_sign() {
    let repo = GitRepo::parse("https://example.com/t.git@develop").unwrap();
    assert_eq!(repo.repo_url, "https://example.com/t.git");
    assert_eq!(repo.repo_branch, "develop");
    let repo: GitRepo = "a@".parse().unwrap();
    assert_eq!(repo.repo_url, "a");
    assert_eq!(repo.repo_branch, "");
    assert!(GitRepo::parse("no-branch").is_err());
    assert!(GitRepo::parse("git@host:x.git@main").is_err());
}
