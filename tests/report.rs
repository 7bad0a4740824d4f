use project_man::cli::is_confirmation;
use project_man::git::RepoStatus;
use project_man::report::{describe_status, tally_statuses, StatusProbe, StatusTally};

#[test]
fn status_descriptions() {
    assert_eq!(describe_status(&StatusProbe::Missing), "missing");
    assert_eq!(describe_status(&StatusProbe::Failed), "unknown");
    let clean = RepoStatus { is_clean: true, ahead: 0, behind: 0 };
    assert_eq!(describe_status(&StatusProbe::Found(clean)), "clean");
    let busy = RepoStatus { is_clean: false, ahead: 2, behind: 13 };
    assert_eq!(describe_status(&StatusProbe::Found(busy)), "dirty, ahead 2, behind 13");
    let behind = RepoStatus { is_clean: true, ahead: 0, behind: 1 };
    assert_eq!(describe_status(&StatusProbe::Found(behind)), "behind 1");
}

#[test]
fn tally_counts_each_state() {
    let probes = vec![
        StatusProbe::Found(RepoStatus { is_clean: true, ahead: 0, behind: 0 }),
        StatusProbe::Found(RepoStatus { is_clean: false, ahead: 1, behind: 0 }),
        StatusProbe::Found(RepoStatus { is_clean: true, ahead: 1, behind: 4 }),
        StatusProbe::Missing,
        StatusProbe::Failed,
    ];
    assert_eq!(
        tally_statuses(&probes),
        StatusTally { clean: 2, dirty: 1, ahead: 2, behind: 1, missing: 1, errors: 1 }
    );
    assert_eq!(
        tally_statuses(&vec![]),
        StatusTally { clean: 0, dirty: 0, ahead: 0, behind: 0, missing: 0, errors: 0 }
    );
}

#[test]
fn confirmation_answers() {
    assert!(is_confirmation("y\n"));
    assert!(is_confirmation("  Y "));
    assert!(is_confirmation("\u{3000}y\u{85}"));
    assert!(!is_confirmation("y\u{200b}"));
    assert!(!is_confirmation("yes"));
    assert!(!is_confirmation(""));
    assert!(!is_confirmation("n"));
}
