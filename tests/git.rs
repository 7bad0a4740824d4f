use project_man::config::GlobalConfig;
use project_man::error::ProjectManError;
use project_man::git::{analyze_repository, repository_name, CommandOutput, GitManager, RepoStatus, SyncResult};
use project_man::time::Timestamp;

fn manager() -> GitManager {
    GitManager::new(GlobalConfig::new_at("/ws".to_string(), Timestamp { seconds: 0, nanos: 0 }))
}

fn output(success: bool, stdout: &str, stderr: &str) -> CommandOutput {
    CommandOutput { success, stdout: stdout.to_string(), stderr: stderr.to_string() }
}

#[test]
fn pull_already_up_to_date() {
    let r = manager().sync_repository(&output(true, "Already up to date.\n", ""));
    assert_eq!(r, Ok(SyncResult::UpToDate));
}

#[test]
fn pull_with_two_ref_updates() {
    let stdout = "Updating 1a2b3c..4d5e6f\nFast-forward\n   1a2b3c..4d5e6f  main       -> origin/main\n   7a8b9c..0d1e2f  dev        -> origin/dev\n 2 files changed\n";
    let r = manager().sync_repository(&output(true, stdout, ""));
    assert_eq!(r, Ok(SyncResult::Updated { commits_pulled: 2 }));
}

#[test]
fn pull_rejected_for_diverged_history() {
    let stderr = "hint: You have divergent branches\nfatal: Not possible to fast-forward, aborting.\nhint: diverged\n";
    let r = manager().sync_repository(&output(false, "", stderr));
    assert_eq!(r, Ok(SyncResult::Conflict { ahead: 0, behind: 0 }));
    let r = manager().sync_repository(&output(false, "", "! [rejected] main (non-fast-forward)"));
    assert_eq!(r, Ok(SyncResult::Conflict { ahead: 0, behind: 0 }));
}

#[test]
fn pull_other_failure_carries_diagnostics() {
    let r = manager().sync_repository(&output(false, "", "fatal: not a git repository"));
    assert_eq!(r, Err(ProjectManError::Git("Git pull failed: fatal: not a git repository".to_string())));
}

#[test]
fn status_clean_with_counts() {
    let st = manager().get_repository_status(&output(true, "", ""), &Some(output(true, "3\t5\n", "")));
    assert_eq!(st, Ok(RepoStatus { is_clean: true, ahead: 3, behind: 5 }));
}

#[test]
fn status_dirty_without_upstream() {
    let st = manager().get_repository_status(&output(true, " M src/lib.rs\n", ""), &Some(output(false, "", "no upstream")));
    assert_eq!(st, Ok(RepoStatus { is_clean: false, ahead: 0, behind: 0 }));
    let st = manager().get_repository_status(&output(true, "", ""), &None);
    assert_eq!(st, Ok(RepoStatus { is_clean: true, ahead: 0, behind: 0 }));
}

#[test]
fn status_with_garbled_counts() {
    let st = manager().get_repository_status(&output(true, "", ""), &Some(output(true, "x\t2", "")));
    assert_eq!(st, Ok(RepoStatus { is_clean: true, ahead: 0, behind: 2 }));
    let st = manager().get_repository_status(&output(true, "", ""), &Some(output(true, "1 2", "")));
    assert_eq!(st, Ok(RepoStatus { is_clean: true, ahead: 0, behind: 0 }));
}

#[test]
fn status_of_non_repository_fails() {
    let st = manager().get_repository_status(&output(false, "", "fatal: not a git repository"), &None);
    assert_eq!(st, Err(ProjectManError::Git("Failed to get git status: fatal: not a git repository".to_string())));
}

#[test]
fn shorthand_expands_with_ssh() {
    let r = manager().parse_repository_url("user/repo").unwrap();
    assert_eq!(r, ("git@github.com:user/repo.git".to_string(), "github.com/user/repo".to_string()));
}

#[test]
fn shorthand_expands_with_https() {
    let mut m = manager();
    m.config.set_value("git.default_protocol", "https").unwrap();
    m.config.set_value("git.default_host", "gitlab.com").unwrap();
    let r = m.parse_repository_url("user/repo").unwrap();
    assert_eq!(r, ("https://gitlab.com/user/repo.git".to_string(), "gitlab.com/user/repo".to_string()));
}

#[test]
fn shorthand_with_unknown_protocol_fails() {
    let mut m = manager();
    m.config.git.default_protocol = "ftp".to_string();
    let r = m.parse_repository_url("user/repo");
    assert_eq!(r, Err(ProjectManError::Config("Invalid default protocol".to_string())));
}

#[test]
fn ssh_url_gives_host_path() {
    let r = manager().parse_repository_url("git@github.com:user/repo.git").unwrap();
    assert_eq!(r, ("git@github.com:user/repo.git".to_string(), "github.com/user/repo".to_string()));
}

#[test]
fn https_url_gives_host_path() {
    let r = manager().parse_repository_url("https://github.com/user/repo.git").unwrap();
    assert_eq!(r, ("https://github.com/user/repo.git".to_string(), "github.com/user/repo".to_string()));
    let r = manager().parse_repository_url("https://example.org/a/b/c").unwrap();
    assert_eq!(r.1, "example.org/a/b");
}

#[test]
fn https_url_without_repository_fails() {
    let r = manager().parse_repository_url("https://github.com/user");
    assert_eq!(r, Err(ProjectManError::InvalidUrl("Invalid repository path".to_string())));
}

#[test]
fn malformed_web_url_fails() {
    let r = manager().parse_repository_url("http://");
    assert!(matches!(r, Err(ProjectManError::InvalidUrl(m)) if m.starts_with("Invalid URL: ")));
}

#[test]
fn unknown_reference_fails() {
    let r = manager().parse_repository_url("just-a-name");
    assert_eq!(r, Err(ProjectManError::InvalidUrl("Invalid repository format: just-a-name".to_string())));
    let r = manager().parse_repository_url("a/b/c");
    assert_eq!(r, Err(ProjectManError::InvalidUrl("Invalid repository format: a/b/c".to_string())));
}

#[test]
fn name_replaces_separators() {
    assert_eq!(repository_name("github.com/user/repo"), "github.com__user__repo");
    assert_eq!(repository_name("h/a_b/c"), "h__a_-b__c");
    assert_ne!(repository_name("h/a_b/c"), repository_name("h/a/b_c"));
    assert_ne!(repository_name("a_/"), repository_name("a/_"));
    assert_eq!(repository_name(""), "");
}

#[test]
fn analyze_reads_origin() {
    let r = analyze_repository(&manager(), &output(true, "  git@github.com:me/tool.git\n", "")).unwrap();
    assert_eq!(r, ("github.com__me__tool".to_string(), "git@github.com:me/tool.git".to_string(), "github.com/me/tool".to_string()));
    assert!(matches!(analyze_repository(&manager(), &output(false, "", "")), Err(ProjectManError::Git(_))));
    assert!(matches!(analyze_repository(&manager(), &output(true, " \n", "")), Err(ProjectManError::Git(_))));
}
