//! Identity of the template repository: its name from a remote URL, its
//! baseline commit, and the names and URLs derived from them.
use vstd::prelude::*;

use crate::text::{
    append_str, chars_of, clean_field, clean_field_seq, find_char, first_index, has_char,
    has_prefix, has_suffix, is_prefix, is_suffix, replace_all, replace_char, string_of,
};
use crate::timestamp::{parse_rfc3339, rfc3339_instant, Timestamp};

verus! {

/// Why the template could not be determined.
#[derive(Debug, PartialEq, Eq)]
pub enum ResolutionError {
    /// No template URL is configured.
    NoTemplateConfigured,
    /// The URL is neither `[user@]host:owner/repo[.git]` nor
    /// `https://host/owner/repo[.git]`; it is carried along.
    UnsupportedUrlFormat(String),
    /// The template's head could not be read.
    UpstreamUnavailable,
}

/// `s` without a trailing `.git`.
pub open spec fn without_git(s: Seq<char>) -> Seq<char> {
    if is_suffix(".git"@, s) {
        s.take(s.len() - ".git"@.len())
    } else {
        s
    }
}

/// The host of the part before the colon of an SSH URL: the text after its
/// first `@`, or all of it where it has none.
pub open spec fn ssh_host(h: Seq<char>) -> Seq<char> {
    if has_char(h, '@') {
        h.skip(first_index(h, '@') + 1)
    } else {
        h
    }
}

/// Host and `owner/repo` of the part of an HTTPS URL after `https://`: a
/// non-empty host, a `/`, and a non-empty path without a trailing `.git`.
pub open spec fn https_location(rest: Seq<char>) -> Option<(Seq<char>, Seq<char>)> {
    if has_char(rest, '/') && 0 < first_index(rest, '/') && first_index(rest, '/') + 1 < rest.len() {
        Some(
            (
                rest.take(first_index(rest, '/')),
                without_git(rest.skip(first_index(rest, '/') + 1)),
            ),
        )
    } else {
        None
    }
}

/// Host and `owner/repo` of an SSH URL `[user@]host:path`: a non-empty part
/// without `/` before the first colon, and a non-empty path that does not
/// start with `/`, without a trailing `.git`.
pub open spec fn ssh_location(url: Seq<char>) -> Option<(Seq<char>, Seq<char>)> {
    if has_char(url, ':') {
        let i = first_index(url, ':');
        let h = url.take(i);
        let r = url.skip(i + 1);
        if i > 0 && !has_char(h, '/') && r.len() > 0 && r[0] != '/' {
            Some((ssh_host(h), without_git(r)))
        } else {
            None
        }
    } else {
        None
    }
}

/// Host and `owner/repo` of a template URL, if it has a supported form.
pub open spec fn template_location_of(url: Seq<char>) -> Option<(Seq<char>, Seq<char>)> {
    if is_prefix("https://"@, url) {
        https_location(url.skip("https://"@.len() as int))
    } else {
        ssh_location(url)
    }
}

/// The `owner/repo` that a template URL names, if it has a supported form.
pub open spec fn repo_name_of(url: Seq<char>) -> Option<Seq<char>> {
    match template_location_of(url) {
        Some(p) => Some(p.1),
        None => None,
    }
}

/// Where the template lives: its host and its `owner/repo` there.
#[derive(Debug, PartialEq, Eq)]
pub struct TemplateLocation {
    pub host: String,
    pub repo: String,
}

/// The rest of `v` from `lo`, without a trailing `.git`.
fn rest_without_git(v: &Vec<char>, lo: usize) -> (r: String)
    requires
        lo <= v.len(),
    ensures
        r@ == without_git(v@.skip(lo as int)),
{
    let git = chars_of(".git");
    let ghost t = v@.skip(lo as int);
    if v.len() - lo >= git.len() && has_suffix(v, &git) {
        assert(t.skip(t.len() - git@.len()) =~= v@.skip(v.len() - git@.len()));
        assert(t.take(t.len() - git@.len()) =~= v@.subrange(lo as int, v.len() - git.len()));
        string_of(v, lo, v.len() - git.len())
    } else {
        assert(is_suffix(git@, t) ==> v@.skip(v.len() - git@.len()) =~= t.skip(t.len() - git@.len()));
        assert(t =~= v@.subrange(lo as int, v.len() as int));
        string_of(v, lo, v.len())
    }
}

/// Host and `owner/repo` of the part of an HTTPS URL after `https://`.
fn locate_https(rest: &Vec<char>) -> (r: Option<TemplateLocation>)
    ensures
        r is None <==> https_location(rest@) is None,
        r matches Some(t) ==> https_location(rest@) == Some((t.host@, t.repo@)),
{
    match find_char(rest, '/') {
        Some(i) => if 0 < i && i < rest.len() - 1 {
            let host = string_of(rest, 0, i);
            assert(rest@.subrange(0, i as int) =~= rest@.take(i as int));
            Some(TemplateLocation { host, repo: rest_without_git(rest, i + 1) })
        } else {
            None
        },
        None => None,
    }
}

/// Host and `owner/repo` of an SSH URL.
fn locate_ssh(v: &Vec<char>) -> (r: Option<TemplateLocation>)
    ensures
        r is None <==> ssh_location(v@) is None,
        r matches Some(t) ==> ssh_location(v@) == Some((t.host@, t.repo@)),
{
    match find_char(v, ':') {
        Some(i) => {
            let h = chars_of(string_of(v, 0, i).as_str());
            assert(h@ =~= v@.take(i as int));
            if i == 0 || i >= v.len() - 1 || v[i + 1] == '/' || find_char(&h, '/').is_some() {
                return None;
            }
            let host = match find_char(&h, '@') {
                Some(j) => {
                    assert(h@.subrange(j + 1, h.len() as int) =~= h@.skip(j + 1));
                    string_of(&h, j + 1, h.len())
                },
                None => {
                    assert(h@.subrange(0, h.len() as int) =~= h@);
                    string_of(&h, 0, h.len())
                },
            };
            Some(TemplateLocation { host, repo: rest_without_git(v, i + 1) })
        },
        None => None,
    }
}

/// Host and `owner/repo` of a template remote URL: `https://host/owner/repo`
/// or `[user@]host:owner/repo`, each with an optional trailing `.git`.
pub fn parse_template_url(url: &str) -> (r: Result<TemplateLocation, ResolutionError>)
    ensures
        r is Ok <==> template_location_of(url@) is Some,
        r matches Ok(t) ==> template_location_of(url@) == Some((t.host@, t.repo@)),
        r matches Err(e) ==> (e matches ResolutionError::UnsupportedUrlFormat(u) && u@ == url@),
{
    let v = chars_of(url);
    let https = chars_of("https://");
    let found = if has_prefix(&v, &https) {
        let rest = chars_of(string_of(&v, https.len(), v.len()).as_str());
        assert(rest@ =~= v@.skip(https@.len() as int));
        locate_https(&rest)
    } else {
        locate_ssh(&v)
    };
    match found {
        Some(t) => Ok(t),
        None => Err(ResolutionError::UnsupportedUrlFormat(url.to_owned())),
    }
}

/// The `owner/repo` that a template remote URL names:
/// `https://host/owner/repo` or `[user@]host:owner/repo`, each with an
/// optional trailing `.git`.
pub fn extract_repo_name_from_url(url: &str) -> (r: Result<String, ResolutionError>)
    ensures
        r is Ok <==> repo_name_of(url@) is Some,
        r matches Ok(name) ==> repo_name_of(url@) == Some(name@),
        r matches Err(e) ==> (e matches ResolutionError::UnsupportedUrlFormat(u) && u@ == url@),
{
    match parse_template_url(url) {
        Ok(t) => Ok(t.repo),
        Err(e) => Err(e),
    }
}

/// Where the template lives, from the configured URL if there is one.
pub fn find_template_repo(url: Option<&str>) -> (r: Result<TemplateLocation, ResolutionError>)
    ensures
        url is None ==> r == Err::<TemplateLocation, ResolutionError>(
            ResolutionError::NoTemplateConfigured,
        ),
        url matches Some(u) ==> (r is Ok <==> template_location_of(u@) is Some),
        url matches Some(u) ==> (r matches Ok(t) ==> template_location_of(u@) == Some(
            (t.host@, t.repo@),
        )),
        url matches Some(u) ==> (r matches Err(e) ==> (e matches ResolutionError::UnsupportedUrlFormat(
            s,
        ) && s@ == u@)),
{
    match url {
        None => Err(ResolutionError::NoTemplateConfigured),
        Some(u) => parse_template_url(u),
    }
}

/// The `owner/repo` of the current repository, from the owner's login and the
/// repository's name as the hosting service reports them.
pub fn repo_identity(owner: Option<&str>, name: Option<&str>) -> (r: Result<String, ResolutionError>)
    ensures
        r is Ok <==> owner is Some && name is Some,
        r matches Ok(id) ==> id@ == owner->0@ + "/"@ + name->0@,
        r matches Err(e) ==> e == ResolutionError::UpstreamUnavailable,
{
    match (owner, name) {
        (Some(o), Some(n)) => {
            let mut id = o.to_owned();
            append_str(&mut id, "/");
            append_str(&mut id, n);
            Ok(id)
        },
        _ => Err(ResolutionError::UpstreamUnavailable),
    }
}

/// The template's head when the run began: the commit and its author time.
#[derive(Debug, PartialEq, Eq)]
pub struct Baseline {
    pub sha: String,
    pub timestamp: Timestamp,
}

/// Reads the template's head from the two fields that the hosting service
/// printed for it, its SHA and its author date; each may carry surrounding
/// whitespace and double quotes.
pub fn parse_baseline(sha_text: &str, date_text: &str) -> (r: Result<Baseline, ResolutionError>)
    ensures
        r is Ok <==> (clean_field_seq(sha_text@).len() > 0 && rfc3339_instant(
            clean_field_seq(date_text@),
        ) is Some),
        r matches Ok(b) ==> b.sha@ == clean_field_seq(sha_text@) && rfc3339_instant(
            clean_field_seq(date_text@),
        ) == Some(b.timestamp@),
        r matches Err(e) ==> e == ResolutionError::UpstreamUnavailable,
{
    let sha = clean_field(sha_text);
    let date = clean_field(date_text);
    if sha.as_str().is_empty() {
        return Err(ResolutionError::UpstreamUnavailable);
    }
    match parse_rfc3339(date.as_str()) {
        Some(t) => Ok(Baseline { sha, timestamp: t }),
        None => Err(ResolutionError::UpstreamUnavailable),
    }
}

/// The local branch name for a run that began at `stamp`.
pub open spec fn branch_name_of(stamp: Seq<char>) -> Seq<char> {
    "contrib/"@ + stamp
}

/// The name under which a branch goes to the template's remote: the current
/// repository's `owner/repo` with `/` turned into `-`, and the run's stamp.
pub open spec fn remote_branch_of(current_repo: Seq<char>, stamp: Seq<char>) -> Seq<char> {
    "chuck-from-"@ + replace_char(current_repo, '/', '-') + "-"@ + stamp
}

/// The page that opens a pull request for `remote_branch` on `template_repo`
/// at `host`.
pub open spec fn pr_url_of(host: Seq<char>, template_repo: Seq<char>, remote_branch: Seq<char>) -> Seq<
    char,
> {
    "https://"@ + host + "/"@ + template_repo + "/pull/new/"@ + remote_branch
}

/// The command that pushes `branch` to `remote_branch` at `url` by hand.
pub open spec fn push_command_of(url: Seq<char>, branch: Seq<char>, remote_branch: Seq<char>) -> Seq<
    char,
> {
    "git push "@ + url + " "@ + branch + ":"@ + remote_branch
}

/// The local branch name for a run that began at `stamp`.
pub fn branch_name(stamp: &str) -> (r: String)
    ensures
        r@ == branch_name_of(stamp@),
{
    let mut r = "contrib/".to_owned();
    append_str(&mut r, stamp);
    r
}

/// The remote branch name for the current repository and the run's stamp.
pub fn remote_branch_name(current_repo: &str, stamp: &str) -> (r: String)
    ensures
        r@ == remote_branch_of(current_repo@, stamp@),
{
    let mut r = "chuck-from-".to_owned();
    let dashed = replace_all(current_repo, '/', '-');
    append_str(&mut r, dashed.as_str());
    append_str(&mut r, "-");
    append_str(&mut r, stamp);
    r
}

/// The pull-request page for `remote_branch` on the template `owner/repo` at
/// `host`.
pub fn pull_request_url(host: &str, template_repo: &str, remote_branch: &str) -> (r: String)
    ensures
        r@ == pr_url_of(host@, template_repo@, remote_branch@),
{
    let mut r = "https://".to_owned();
    append_str(&mut r, host);
    append_str(&mut r, "/");
    append_str(&mut r, template_repo);
    append_str(&mut r, "/pull/new/");
    append_str(&mut r, remote_branch);
    r
}

/// The command that pushes `branch` to `remote_branch` at `url` by hand.
pub fn push_command(url: &str, branch: &str, remote_branch: &str) -> (r: String)
    ensures
        r@ == push_command_of(url@, branch@, remote_branch@),
{
    let mut r = "git push ".to_owned();
    append_str(&mut r, url);
    append_str(&mut r, " ");
    append_str(&mut r, branch);
    append_str(&mut r, ":");
    append_str(&mut r, remote_branch);
    r
}

/// The pull-request page depends on the template's host, `owner` and `repo` and the
/// remote branch name alone: equal inputs give the same text.
pub proof fn lemma_pr_url_deterministic(
    host1: Seq<char>,
    owner1: Seq<char>,
    repo1: Seq<char>,
    branch1: Seq<char>,
    host2: Seq<char>,
    owner2: Seq<char>,
    repo2: Seq<char>,
    branch2: Seq<char>,
)
    requires
        host1 == host2,
        owner1 == owner2,
        repo1 == repo2,
        branch1 == branch2,
    ensures
        pr_url_of(host1, owner1 + "/"@ + repo1, branch1) == pr_url_of(
            host2,
            owner2 + "/"@ + repo2,
            branch2,
        ),
{
}

} // verus!
