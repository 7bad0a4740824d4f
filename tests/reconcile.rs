use project_man::config::GlobalConfig;
use project_man::git::{CommandOutput, GitManager};
use project_man::reconcile::{sync_outcome, ProbeReport, ReconciliationCoordinator, ReconciliationOutcome};
use project_man::registry::{RepositoryConfig, WorkspaceRegistry};
use project_man::time::Timestamp;

fn at(seconds: i64) -> Timestamp {
    Timestamp { seconds, nanos: 0 }
}

fn manager() -> GitManager {
    GitManager::new(GlobalConfig::new_at("/ws".to_string(), at(0)))
}

fn registry(names: &[&str]) -> WorkspaceRegistry {
    let mut reg = WorkspaceRegistry::new_at(at(1));
    for n in names {
        reg.add_repository_at(n.to_string(), RepositoryConfig::new_at(format!("x/{}", n), String::new(), vec![], at(1)), at(1))
            .unwrap();
    }
    reg
}

fn ran(success: bool, stdout: &str, stderr: &str) -> ProbeReport {
    ProbeReport::Ran(CommandOutput { success, stdout: stdout.to_string(), stderr: stderr.to_string() })
}

#[test]
fn missing_second_repository_is_not_a_failure() {
    let mut reg = registry(&["one", "two", "three"]);
    let reports = vec![
        ("one".to_string(), ran(true, "Already up to date.\n", "")),
        ("two".to_string(), ProbeReport::DirectoryMissing),
        ("three".to_string(), ran(true, "  a..b  main -> origin/main\n", "")),
    ];
    let (summary, outcomes) = ReconciliationCoordinator::run_at(&manager(), &mut reg, reports, at(500));
    assert_eq!(summary.successes, 2);
    assert_eq!(summary.failures, 0);
    assert_eq!(summary.missing, 1);
    assert_eq!(
        outcomes,
        vec![ReconciliationOutcome::UpToDate, ReconciliationOutcome::Missing, ReconciliationOutcome::Updated { count: 1 }]
    );
    assert_eq!(reg.get_repository("one").unwrap().last_sync, Some(at(500)));
    assert_eq!(reg.get_repository("two").unwrap().last_sync, None);
    assert_eq!(reg.get_repository("three").unwrap().last_sync, Some(at(500)));
}

#[test]
fn failures_leave_records_alone_and_do_not_stop_the_batch() {
    let mut reg = registry(&["a", "b", "c"]);
    let reports = vec![
        ("a".to_string(), ran(false, "", "fatal: Not possible to fast-forward; diverged")),
        ("b".to_string(), ProbeReport::LaunchFailed("git not found".to_string())),
        ("c".to_string(), ran(false, "", "fatal: boom")),
    ];
    let (summary, outcomes) = ReconciliationCoordinator::run_at(&manager(), &mut reg, reports, at(600));
    assert_eq!(summary.successes, 0);
    assert_eq!(summary.failures, 3);
    assert_eq!(summary.missing, 0);
    assert_eq!(
        outcomes,
        vec![
            ReconciliationOutcome::Conflict { ahead: 0, behind: 0 },
            ReconciliationOutcome::Failed { reason: "git not found".to_string() },
            ReconciliationOutcome::Failed { reason: "Git pull failed: fatal: boom".to_string() },
        ]
    );
    assert!(reg.get_repository("a").unwrap().last_sync.is_none());
    assert_eq!(reg.updated_at, at(1));
}

#[test]
fn step_by_step_recording() {
    let mut reg = registry(&["a"]);
    let mut c = ReconciliationCoordinator::new();
    let o = c.record_at(&manager(), &mut reg, "a", ran(true, "Already up to date", ""), at(700));
    assert_eq!(o, ReconciliationOutcome::UpToDate);
    let o = c.record_at(&manager(), &mut reg, "unknown", ran(true, "Already up to date", ""), at(800));
    assert_eq!(o, ReconciliationOutcome::UpToDate);
    assert_eq!(c.summary.successes, 2);
    assert_eq!(reg.get_repository("a").unwrap().last_sync, Some(at(700)));
    assert_eq!(reg.updated_at, at(700));
}

#[test]
fn single_outcomes() {
    assert_eq!(sync_outcome(&manager(), ProbeReport::DirectoryMissing), ReconciliationOutcome::Missing);
    assert_eq!(
        sync_outcome(&manager(), ran(true, " x..y  a -> origin/a\n z..w  b -> origin/b\n", "")),
        ReconciliationOutcome::Updated { count: 2 }
    );
}
