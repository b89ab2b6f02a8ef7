use chuck::resolve::{
    branch_name, extract_repo_name_from_url, find_template_repo, parse_baseline, parse_template_url,
    pull_request_url, push_command, remote_branch_name, repo_identity, ResolutionError,
    TemplateLocation,
};
use chuck::text::{clean_field, is_whitespace};

#[test]
fn ssh_url_with_git_suffix() {
    assert_eq!(extract_repo_name_from_url("git@github.com:acme/template.git"), Ok("acme/template".to_string()));
}

#[test]
fn ssh_url_without_suffix() {
    assert_eq!(extract_repo_name_from_url("git@github.com:acme/template"), Ok("acme/template".to_string()));
}

#[test]
fn https_url_with_and_without_suffix() {
    assert_eq!(extract_repo_name_from_url("https://github.com/acme/tpl.git"), Ok("acme/tpl".to_string()));
    assert_eq!(extract_repo_name_from_url("https://github.com/acme/tpl"), Ok("acme/tpl".to_string()));
}

#[test]
fn unsupported_url_is_refused() {
    assert_eq!(
        extract_repo_name_from_url("ftp://example.com/acme/tpl"),
        Err(ResolutionError::UnsupportedUrlFormat("ftp://example.com/acme/tpl".to_string()))
    );
    assert!(extract_repo_name_from_url("").is_err());
}

#[test]
fn missing_configuration_is_reported() {
    assert_eq!(find_template_repo(None), Err(ResolutionError::NoTemplateConfigured));
    assert_eq!(
        find_template_repo(Some("git@github.com:o/r.git")),
        Ok(TemplateLocation { host: "github.com".to_string(), repo: "o/r".to_string() })
    );
}

#[test]
fn branch_names_from_stamp() {
    assert_eq!(branch_name("20240102-030405"), "contrib/20240102-030405");
    assert_eq!(remote_branch_name("me/app", "20240102-030405"), "chuck-from-me-app-20240102-030405");
}

#[test]
fn pull_request_url_is_exact_and_repeatable() {
    let a = pull_request_url("github.com", "acme/tpl", "chuck-from-me-app-1");
    let b = pull_request_url("github.com", "acme/tpl", "chuck-from-me-app-1");
    assert_eq!(a, "https://github.com/acme/tpl/pull/new/chuck-from-me-app-1");
    assert_eq!(a.as_bytes(), b.as_bytes());
}

#[test]
fn manual_push_command() {
    assert_eq!(
        push_command("git@github.com:acme/tpl.git", "contrib/1", "chuck-from-me-app-1"),
        "git push git@github.com:acme/tpl.git contrib/1:chuck-from-me-app-1"
    );
}

#[test]
fn repo_identity_joins_owner_and_name() {
    assert_eq!(repo_identity(Some("me"), Some("app")), Ok("me/app".to_string()));
    assert_eq!(repo_identity(None, Some("app")), Err(ResolutionError::UpstreamUnavailable));
    assert_eq!(repo_identity(Some("me"), None), Err(ResolutionError::UpstreamUnavailable));
}

#[test]
fn baseline_from_command_output() {
    let b = parse_baseline("\"abc123\"\n", "\"2024-01-02T03:04:05Z\"\n").unwrap();
    assert_eq!(b.sha, "abc123");
    assert_eq!(b.timestamp.secs, 1704164645);
    assert_eq!(b.timestamp.nanos, 0);
    assert_eq!(b.timestamp.offset_secs, 0);
}

#[test]
fn baseline_with_offset() {
    let b = parse_baseline("abc", "2024-01-02T05:04:05+02:00").unwrap();
    assert_eq!(b.timestamp.secs, 1704164645);
    assert_eq!(b.timestamp.offset_secs, 7200);
}

#[test]
fn baseline_errors() {
    assert_eq!(parse_baseline("  \n", "2024-01-02T03:04:05Z"), Err(ResolutionError::UpstreamUnavailable));
    assert_eq!(parse_baseline("abc", "yesterday"), Err(ResolutionError::UpstreamUnavailable));
}

#[test]
fn trimming() {
    assert_eq!(clean_field("  a b \t\n"), "a b");
    assert_eq!(clean_field(""), "");
    assert_eq!(clean_field(" \"x\" \n"), "x");
    assert_eq!(clean_field("\"  x\""), "  x");
}

#[test]
fn whitespace_table() {
    for c in ['\t', '\n', '\u{b}', '\u{c}', '\r', ' ', '\u{85}', '\u{a0}', '\u{1680}', '\u{2000}', '\u{200a}', '\u{2028}', '\u{2029}', '\u{202f}', '\u{205f}', '\u{3000}'] {
        assert!(is_whitespace(c));
        assert_eq!(is_whitespace(c), c.is_whitespace());
    }
    for c in ['x', '"', '\u{8}', '\u{e}', '\u{200b}', '\u{feff}'] {
        assert!(!is_whitespace(c));
    }
    for cp in 0u32..0x3100 {
        if let Some(c) = char::from_u32(cp) {
            assert_eq!(is_whitespace(c), c.is_whitespace(), "{:x}", cp);
        }
    }
    assert_eq!(clean_field("\u{3000}\u{a0}\"v\"\u{2028}"), "v");
}

fn location(url: &str) -> Option<(String, String)> {
    parse_template_url(url).ok().map(|t| (t.host, t.repo))
}

fn pair(host: &str, repo: &str) -> Option<(String, String)> {
    Some((host.to_string(), repo.to_string()))
}

#[test]
fn urls_on_any_host() {
    assert_eq!(extract_repo_name_from_url("git@gitlab.example.com:acme/template.git"), Ok("acme/template".to_string()));
    assert_eq!(location("git@gitlab.example.com:acme/template.git"), pair("gitlab.example.com", "acme/template"));
    assert_eq!(location("gitlab.example.com:acme/template"), pair("gitlab.example.com", "acme/template"));
    assert_eq!(location("https://git.example.org/acme/template.git"), pair("git.example.org", "acme/template"));
    assert_eq!(location("https://git.example.org/acme/template"), pair("git.example.org", "acme/template"));
    assert_eq!(location("https://github.com/acme/tpl"), pair("github.com", "acme/tpl"));
}

#[test]
fn malformed_urls_are_refused() {
    for url in ["https://", "https://host", "https://host/", "https:///x/y", ":acme/tpl", "host:", "host:/abs/path", "http://host/a/b", "a/b:c/d", "plain"] {
        assert_eq!(
            parse_template_url(url),
            Err(ResolutionError::UnsupportedUrlFormat(url.to_string())),
            "{}",
            url
        );
    }
}

#[test]
fn pull_request_url_keeps_the_host() {
    assert_eq!(
        pull_request_url("gitlab.example.com", "acme/template", "b"),
        "https://gitlab.example.com/acme/template/pull/new/b"
    );
}
