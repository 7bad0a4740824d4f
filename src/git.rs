//! The version-control probe: what the tool's output says about a checkout
//! (clean or dirty, ahead or behind, the outcome of a fast-forward pull),
//! and how a repository reference becomes a clone URL and a checkout path.
//! Running the tool is the caller's; these functions read what it printed.

use vstd::prelude::*;
use crate::config::GlobalConfig;
use crate::error::{ErrorView, ProjectManError};
use crate::text::{
    append_range, chars_of, contains_seq, contains_str, find_char, first_index_of, is_prefix,
    parse_usize, parsed_usize, split_on, split_text, starts_with, str_eq, strip_leading,
    strip_trailing, texts, trim, trim_end_matches, trim_of, trim_start_matches,
};

verus! {

/// What a finished run of the version-control tool reported.
#[derive(Debug)]
pub struct CommandOutput {
    /// The tool exited with status zero.
    pub success: bool,
    pub stdout: String,
    pub stderr: String,
}

/// The outcome of a fast-forward pull.
#[derive(Clone, Copy, Debug, PartialEq, Eq, Structural)]
pub enum SyncResult {
    UpToDate,
    Updated { commits_pulled: usize },
    Conflict { ahead: usize, behind: usize },
}

/// A checkout's state against its upstream.
#[derive(Clone, Copy, Debug, PartialEq, Eq, Structural)]
pub struct RepoStatus {
    pub is_clean: bool,
    pub ahead: usize,
    pub behind: usize,
}

/// A line of pull output that reports a ref update (`old..new  main -> origin/main`).
pub open spec fn is_ref_update(line: Seq<char>) -> bool {
    contains_seq(line, "->"@) && contains_seq(line, "/"@)
}

/// How many of `lines` report a ref update.
pub open spec fn count_ref_updates(lines: Seq<Seq<char>>) -> nat
    decreases lines.len(),
{
    if lines.len() == 0 {
        0
    } else {
        count_ref_updates(lines.drop_last()) + if is_ref_update(lines.last()) { 1nat } else { 0nat }
    }
}

/// What a fast-forward pull's output means: up to date when the tool says so,
/// otherwise updated by as many commits as ref-update lines; a refused pull
/// whose diagnostics speak of diverged history is a conflict, any other is a
/// failure carrying the diagnostics.
pub open spec fn pull_result(success: bool, stdout: Seq<char>, stderr: Seq<char>) -> Result<
    SyncResult,
    ErrorView,
> {
    if success {
        if contains_seq(stdout, "Already up to date"@) {
            Ok(SyncResult::UpToDate)
        } else {
            Ok(
                SyncResult::Updated {
                    commits_pulled: count_ref_updates(split_on(stdout, '\n')) as usize,
                },
            )
        }
    } else if contains_seq(stderr, "diverged"@) || contains_seq(stderr, "non-fast-forward"@) {
        Ok(SyncResult::Conflict { ahead: 0, behind: 0 })
    } else {
        Err(ErrorView::Git("Git pull failed: "@ + stderr))
    }
}

/// A count as printed, or zero when it does not read as one.
pub open spec fn count_or_zero(s: Seq<char>) -> usize {
    match parsed_usize(s) {
        Some(n) => n,
        None => 0,
    }
}

/// The ahead and behind counts in the output of a left-right commit count:
/// two tab-separated numbers, else zero for both.
pub open spec fn upstream_counts(stdout: Seq<char>) -> (usize, usize) {
    let parts = split_on(trim_of(stdout), '\t');
    if parts.len() == 2 {
        (count_or_zero(parts[0]), count_or_zero(parts[1]))
    } else {
        (0, 0)
    }
}

/// What the status and upstream-comparison output say: a failed status run
/// is an error; the tree is clean when status printed nothing; without a
/// successful comparison (no upstream) both counts are zero.
pub open spec fn status_result(status: CommandOutput, upstream: Option<CommandOutput>) -> Result<
    RepoStatus,
    ErrorView,
> {
    if !status.success {
        Err(ErrorView::Git("Failed to get git status: "@ + status.stderr@))
    } else {
        let counts = match upstream {
            Some(u) => if u.success { upstream_counts(u.stdout@) } else { (0, 0) },
            None => (0, 0),
        };
        Ok(RepoStatus { is_clean: status.stdout@.len() == 0, ahead: counts.0, behind: counts.1 })
    }
}

/// The result of a reference parse as plain values.
pub open spec fn pair_result(r: Result<(String, String), ProjectManError>) -> Result<
    (Seq<char>, Seq<char>),
    ErrorView,
> {
    match r {
        Ok((a, b)) => Ok((a@, b@)),
        Err(e) => Err(e@),
    }
}

/// Names what `url::Url::parse` makes of a text: its host and path, or the
/// parse error's message.
pub uninterp spec fn web_url_parse(s: Seq<char>) -> Result<(Option<Seq<char>>, Seq<char>), Seq<char>>;

/// A web URL parse as plain values.
pub open spec fn web_parse_view(r: Result<(Option<String>, String), String>) -> Result<
    (Option<Seq<char>>, Seq<char>),
    Seq<char>,
> {
    match r {
        Ok((Some(h), p)) => Ok((Some(h@), p@)),
        Ok((None, p)) => Ok((None, p@)),
        Err(e) => Err(e@),
    }
}

/// Relies on `url::Url::parse`, reading `host_str` and `path` of the URL it
/// returns, or the text of its `ParseError`; the outcome depends on the
/// input text alone.
#[verifier::external_body]
fn parse_web_url(s: &str) -> (r: Result<(Option<String>, String), String>)
    ensures
        web_parse_view(r) == web_url_parse(s@),
{
    match url::Url::parse(s) {
        Ok(u) => match u.host_str() {
            Some(h) => Ok((Some(h.to_string()), u.path().to_string())),
            None => Ok((None, u.path().to_string())),
        },
        Err(e) => Err(e.to_string()),
    }
}

/// An SSH reference (`git@host:owner/repo.git`): the checkout path is the
/// host, without its `git@` prefix, then the part after the first `:`,
/// without a `.git` suffix.
pub open spec fn ssh_reference(url: Seq<char>) -> Result<(Seq<char>, Seq<char>), ErrorView> {
    match first_index_of(url, ':') {
        None => Err(ErrorView::InvalidUrl("Invalid SSH URL format"@)),
        Some(k) => Ok(
            (
                url,
                strip_leading(url.subrange(0, k), "git@"@) + "/"@ + strip_trailing(
                    url.subrange(k + 1, url.len() as int),
                    ".git"@,
                ),
            ),
        ),
    }
}

/// A web reference (`https://host/owner/repo.git`): the checkout path is the
/// host and the first two path segments, without a `.git` suffix.
pub open spec fn web_reference(url: Seq<char>) -> Result<(Seq<char>, Seq<char>), ErrorView> {
    match web_url_parse(url) {
        Err(e) => Err(ErrorView::InvalidUrl("Invalid URL: "@ + e)),
        Ok((None, _)) => Err(ErrorView::InvalidUrl("No host in URL"@)),
        Ok((Some(host), path)) => {
            let segs = split_on(strip_trailing(strip_leading(path, "/"@), ".git"@), '/');
            if segs.len() < 2 {
                Err(ErrorView::InvalidUrl("Invalid repository path"@))
            } else {
                Ok((url, host + "/"@ + segs[0] + "/"@ + segs[1]))
            }
        },
    }
}

/// A full URL, SSH or web.
pub open spec fn full_reference(url: Seq<char>) -> Result<(Seq<char>, Seq<char>), ErrorView> {
    if is_prefix("git@"@, url) {
        ssh_reference(url)
    } else if is_prefix("http"@, url) {
        web_reference(url)
    } else {
        Err(ErrorView::InvalidUrl("Unsupported URL format"@))
    }
}

/// A repository reference read with the given default host and protocol:
/// a full URL as it is, or `owner/repo` expanded to the default host.
/// The result is the clone URL and the checkout path under the workspace.
pub open spec fn parsed_reference(host: Seq<char>, protocol: Seq<char>, input: Seq<char>) -> Result<
    (Seq<char>, Seq<char>),
    ErrorView,
> {
    if is_prefix("http"@, input) || is_prefix("git@"@, input) {
        full_reference(input)
    } else if input.contains('/') && !input.contains('@') && !input.contains(':') && split_on(
        input,
        '/',
    ).len() == 2 {
        let user = split_on(input, '/')[0];
        let repo = split_on(input, '/')[1];
        let path = host + "/"@ + user + "/"@ + repo;
        if protocol == "ssh"@ {
            Ok(("git@"@ + host + ":"@ + user + "/"@ + repo + ".git"@, path))
        } else if protocol == "https"@ {
            Ok(("https://"@ + host + "/"@ + user + "/"@ + repo + ".git"@, path))
        } else {
            Err(ErrorView::Config("Invalid default protocol"@))
        }
    } else {
        Err(ErrorView::InvalidUrl("Invalid repository format: "@ + input))
    }
}

/// How one character of a checkout path is written in a registry name:
/// `/` as `__`, `_` as `_-`, any other character as itself. No code is a
/// prefix of another, so a name can be read back into its path.
pub open spec fn name_code(c: char) -> Seq<char> {
    if c == '/' {
        seq!['_', '_']
    } else if c == '_' {
        seq!['_', '-']
    } else {
        seq![c]
    }
}

/// The registry name of a checkout path: each character written by
/// `name_code`.
pub open spec fn name_for_path(p: Seq<char>) -> Seq<char>
    decreases p.len(),
{
    if p.len() == 0 {
        Seq::empty()
    } else {
        name_code(p[0]) + name_for_path(p.drop_first())
    }
}

proof fn lemma_name_push(p: Seq<char>, c: char)
    ensures
        name_for_path(p.push(c)) == name_for_path(p) + name_code(c),
    decreases p.len(),
{
    if p.len() == 0 {
        assert(p.push(c).drop_first() =~= Seq::<char>::empty());
        assert(p.push(c)[0] == c);
        assert(name_for_path(Seq::<char>::empty()) =~= Seq::<char>::empty());
        assert(name_for_path(p) =~= Seq::<char>::empty());
        assert(name_for_path(p.push(c)) =~= name_code(c));
    } else {
        assert(p.push(c).drop_first() =~= p.drop_first().push(c));
        lemma_name_push(p.drop_first(), c);
        assert(name_for_path(p.push(c)) =~= name_for_path(p) + name_code(c));
    }
}

/// Distinct checkout paths get distinct registry names.
pub proof fn lemma_names_distinguish_paths(a: Seq<char>, b: Seq<char>)
    requires
        name_for_path(a) == name_for_path(b),
    ensures
        a == b,
    decreases a.len(),
{
    if a.len() == 0 {
        if b.len() > 0 {
            assert(name_for_path(b).len() > 0);
        }
        assert(a =~= b);
    } else {
        if b.len() == 0 {
            assert(name_for_path(a).len() > 0);
        }
        let na = name_for_path(a);
        let ca = name_code(a[0]);
        let cb = name_code(b[0]);
        assert(na[0] == ca[0]);
        assert(na[0] == (cb + name_for_path(b.drop_first()))[0]);
        let k = ca.len() as int;
        if ca.len() == 1 {
            assert(cb.len() == 1);
        } else {
            assert(cb.len() == 2);
            assert(na[1] == ca[1]);
            assert(na[1] == (cb + name_for_path(b.drop_first()))[1]);
        }
        assert(a[0] == b[0]);
        assert(na.subrange(k, na.len() as int) =~= name_for_path(a.drop_first()));
        assert(na.subrange(k, na.len() as int) =~= name_for_path(b.drop_first()));
        lemma_names_distinguish_paths(a.drop_first(), b.drop_first());
        assert(a =~= seq![a[0]] + a.drop_first());
        assert(b =~= seq![b[0]] + b.drop_first());
    }
}

/// The registry name of a checkout path.
pub fn repository_name(relative_path: &str) -> (r: String)
    ensures
        r@ == name_for_path(relative_path@),
{
    let c = chars_of(relative_path);
    let mut out = String::new();
    let mut i: usize = 0;
    proof {
        reveal_strlit("__");
        reveal_strlit("_-");
        assert(relative_path@.subrange(0, 0) =~= Seq::<char>::empty());
    }
    while i < c.len()
        invariant
            c@ == relative_path@,
            i <= c@.len(),
            out@ == name_for_path(relative_path@.subrange(0, i as int)),
        decreases c.len() - i,
    {
        let ghost before = relative_path@.subrange(0, i as int);
        if c[i] == '/' {
            out.append("__");
            proof {
                reveal_strlit("__");
                assert("__"@ =~= seq!['_', '_']);
            }
        } else if c[i] == '_' {
            out.append("_-");
            proof {
                reveal_strlit("_-");
                assert("_-"@ =~= seq!['_', '-']);
            }
        } else {
            append_range(&mut out, relative_path, i, i + 1);
            assert(relative_path@.subrange(i as int, i + 1) =~= seq![c@[i as int]]);
        }
        proof {
            lemma_name_push(before, c@[i as int]);
            assert(before.push(c@[i as int]) =~= relative_path@.subrange(0, i + 1));
        }
        i += 1;
    }
    assert(relative_path@.subrange(0, i as int) =~= relative_path@);
    out
}

fn invalid_url(message: &str) -> (r: ProjectManError)
    ensures
        r@ == ErrorView::InvalidUrl(message@),
{
    ProjectManError::InvalidUrl(String::from_str(message))
}

/// Reads version-control output and repository references, with the user's
/// defaults for shorthand references.
#[derive(Debug)]
pub struct GitManager {
    pub config: GlobalConfig,
}

impl GitManager {
    /// A probe using the defaults in `config`.
    pub fn new(config: GlobalConfig) -> (r: Self)
        ensures
            r.config@ == config@,
    {
        GitManager { config }
    }

    /// The clone URL and checkout path for `input`, a full URL or an
    /// `owner/repo` shorthand.
    pub fn parse_repository_url(&self, input: &str) -> (r: Result<(String, String), ProjectManError>)
        ensures
            pair_result(r) == parsed_reference(
                self.config@.default_host,
                self.config@.default_protocol,
                input@,
            ),
    {
        if starts_with(input, "http") || starts_with(input, "git@") {
            return self.parse_full_url(input);
        }
        let c = chars_of(input);
        if find_char(&c, '/').is_some() && find_char(&c, '@').is_none() && find_char(&c, ':').is_none() {
            let parts = split_text(input, '/');
            if parts.len() == 2 {
                let host = self.config.git.default_host.as_str();
                let user = parts[0].as_str();
                let repo = parts[1].as_str();
                let mut path = String::from_str(host);
                path.append("/");
                path.append(user);
                path.append("/");
                path.append(repo);
                if str_eq(self.config.git.default_protocol.as_str(), "ssh") {
                    let mut url = String::from_str("git@");
                    url.append(host);
                    url.append(":");
                    url.append(user);
                    url.append("/");
                    url.append(repo);
                    url.append(".git");
                    return Ok((url, path));
                } else if str_eq(self.config.git.default_protocol.as_str(), "https") {
                    let mut url = String::from_str("https://");
                    url.append(host);
                    url.append("/");
                    url.append(user);
                    url.append("/");
                    url.append(repo);
                    url.append(".git");
                    return Ok((url, path));
                } else {
                    return Err(ProjectManError::Config(String::from_str("Invalid default protocol")));
                }
            }
        }
        let mut m = String::from_str("Invalid repository format: ");
        m.append(input);
        Err(ProjectManError::InvalidUrl(m))
    }

    fn parse_full_url(&self, url: &str) -> (r: Result<(String, String), ProjectManError>)
        ensures
            pair_result(r) == full_reference(url@),
    {
        if starts_with(url, "git@") {
            let c = chars_of(url);
            match find_char(&c, ':') {
                None => Err(invalid_url("Invalid SSH URL format")),
                Some(k) => {
                    let n = c.len();
                    assert(k < n);
                    let before = url.substring_char(0, k);
                    let after = url.substring_char(k + 1, n);
                    let host = trim_start_matches(before, "git@");
                    let repo_part = trim_end_matches(after, ".git");
                    let mut path = host;
                    path.append("/");
                    path.append(repo_part.as_str());
                    Ok((String::from_str(url), path))
                },
            }
        } else if starts_with(url, "http") {
            match parse_web_url(url) {
                Err(e) => {
                    let mut m = String::from_str("Invalid URL: ");
                    m.append(e.as_str());
                    Err(ProjectManError::InvalidUrl(m))
                },
                Ok((None, _)) => Err(invalid_url("No host in URL")),
                Ok((Some(host), path)) => {
                    let trimmed = trim_start_matches(path.as_str(), "/");
                    let trimmed = trim_end_matches(trimmed.as_str(), ".git");
                    let segs = split_text(trimmed.as_str(), '/');
                    if segs.len() < 2 {
                        return Err(invalid_url("Invalid repository path"));
                    }
                    let mut repo_path = host;
                    repo_path.append("/");
                    repo_path.append(segs[0].as_str());
                    repo_path.append("/");
                    repo_path.append(segs[1].as_str());
                    Ok((String::from_str(url), repo_path))
                },
            }
        } else {
            Err(invalid_url("Unsupported URL format"))
        }
    }

    /// What a fast-forward pull reported: up to date, updated by some
    /// commits, or in conflict; any other refusal is a `Git` error carrying
    /// the tool's diagnostics.
    pub fn sync_repository(&self, output: &CommandOutput) -> (r: Result<SyncResult, ProjectManError>)
        ensures
            match r {
                Ok(s) => pull_result(output.success, output.stdout@, output.stderr@) == Ok::<
                    SyncResult,
                    ErrorView,
                >(s),
                Err(e) => pull_result(output.success, output.stdout@, output.stderr@) == Err::<
                    SyncResult,
                    ErrorView,
                >(e@),
            },
    {
        if output.success {
            if contains_str(output.stdout.as_str(), "Already up to date") {
                Ok(SyncResult::UpToDate)
            } else {
                let lines = split_text(output.stdout.as_str(), '\n');
                let mut count: usize = 0;
                let mut i: usize = 0;
                while i < lines.len()
                    invariant
                        i <= lines@.len(),
                        count <= i,
                        count == count_ref_updates(texts(lines@).subrange(0, i as int)),
                    decreases lines.len() - i,
                {
                    let line = lines[i].as_str();
                    let ghost prefix = texts(lines@).subrange(0, i + 1);
                    assert(prefix.drop_last() =~= texts(lines@).subrange(0, i as int));
                    if contains_str(line, "->") && contains_str(line, "/") {
                        count += 1;
                    }
                    i += 1;
                }
                assert(texts(lines@).subrange(0, i as int) =~= texts(lines@));
                Ok(SyncResult::Updated { commits_pulled: count })
            }
        } else if contains_str(output.stderr.as_str(), "diverged") || contains_str(
            output.stderr.as_str(),
            "non-fast-forward",
        ) {
            Ok(SyncResult::Conflict { ahead: 0, behind: 0 })
        } else {
            let mut m = String::from_str("Git pull failed: ");
            m.append(output.stderr.as_str());
            Err(ProjectManError::Git(m))
        }
    }

    /// The checkout's state from the output of a porcelain status run and,
    /// when it could be run, of a left-right commit count against the
    /// upstream. A failed status run is a `Git` error.
    pub fn get_repository_status(&self, status: &CommandOutput, upstream: &Option<CommandOutput>) -> (r:
        Result<RepoStatus, ProjectManError>)
        ensures
            match r {
                Ok(s) => status_result(*status, *upstream) == Ok::<RepoStatus, ErrorView>(s),
                Err(e) => status_result(*status, *upstream) == Err::<RepoStatus, ErrorView>(e@),
            },
    {
        if !status.success {
            let mut m = String::from_str("Failed to get git status: ");
            m.append(status.stderr.as_str());
            return Err(ProjectManError::Git(m));
        }
        let is_clean = status.stdout.as_str().unicode_len() == 0;
        let (ahead, behind) = match upstream {
            Some(u) => if u.success {
                upstream_counts_exec(u.stdout.as_str())
            } else {
                (0, 0)
            },
            None => (0, 0),
        };
        Ok(RepoStatus { is_clean, ahead, behind })
    }
}

/// The ahead and behind counts in a left-right commit count's output.
pub fn upstream_counts_exec(stdout: &str) -> (r: (usize, usize))
    ensures
        r == upstream_counts(stdout@),
{
    let trimmed = trim(stdout);
    let parts = split_text(trimmed.as_str(), '\t');
    if parts.len() == 2 {
        let ahead = match parse_usize(parts[0].as_str()) {
            Some(n) => n,
            None => 0,
        };
        let behind = match parse_usize(parts[1].as_str()) {
            Some(n) => n,
            None => 0,
        };
        assert(texts(parts@)[0] == parts@[0]@);
        assert(texts(parts@)[1] == parts@[1]@);
        (ahead, behind)
    } else {
        (0, 0)
    }
}

/// What a migrated checkout is: its registry name, origin URL and checkout
/// path, from the output of asking the tool for the origin's URL. Fails with
/// `Git` when the tool failed or printed no URL.
pub fn analyze_repository(git_manager: &GitManager, remote: &CommandOutput) -> (r: Result<
    (String, String, String),
    ProjectManError,
>)
    ensures
        !remote.success ==> r matches Err(ProjectManError::Git(_)),
        remote.success && trim_of(remote.stdout@).len() == 0 ==> r matches Err(
            ProjectManError::Git(_),
        ),
        remote.success && trim_of(remote.stdout@).len() > 0 ==> match parsed_reference(
            git_manager.config@.default_host,
            git_manager.config@.default_protocol,
            trim_of(remote.stdout@),
        ) {
            Ok((_, path)) => r matches Ok((n, u, p)) && n@ == name_for_path(path) && u@ == trim_of(
                remote.stdout@,
            ) && p@ == path,
            Err(e) => r matches Err(x) && x@ == e,
        },
{
    if !remote.success {
        return Err(ProjectManError::Git(String::from_str("No origin remote found")));
    }
    let url = trim(remote.stdout.as_str());
    if url.as_str().unicode_len() == 0 {
        return Err(ProjectManError::Git(String::from_str("Origin URL not found")));
    }
    match git_manager.parse_repository_url(url.as_str()) {
        Ok((_, target_path)) => {
            let name = repository_name(target_path.as_str());
            Ok((name, url, target_path))
        },
        Err(e) => Err(e),
    }
}

} // verus!
