use project_man::registry::RepositoryConfig;
use project_man::search::SearchResult;
use project_man::selector::{InteractiveSelector, LineKind, SelectionStart, SelectorKey, SelectorStep};
use project_man::time::Timestamp;

fn candidate(name: &str) -> SearchResult {
    SearchResult {
        name: name.to_string(),
        repo_config: RepositoryConfig::new_at(
            format!("host/{}", name),
            String::new(),
            vec![],
            Timestamp { seconds: 0, nanos: 0 },
        ),
        score: 10,
    }
}

fn chooser(names: &[&str]) -> InteractiveSelector {
    match InteractiveSelector::begin(names.iter().map(|n| candidate(n)).collect()) {
        SelectionStart::Interactive(s) => s,
        SelectionStart::Immediate(_) => panic!("expected an interactive choice"),
    }
}

#[test]
fn single_candidate_is_chosen_without_input() {
    match InteractiveSelector::begin(vec![candidate("only")]) {
        SelectionStart::Immediate(Some(c)) => assert_eq!(c.name, "only"),
        _ => panic!("expected the only candidate"),
    }
}

#[test]
fn no_candidate_gives_no_selection() {
    assert!(matches!(InteractiveSelector::begin(vec![]), SelectionStart::Immediate(None)));
}

#[test]
fn several_candidates_start_at_first() {
    let s = chooser(&["a", "b", "c"]);
    assert_eq!(s.cursor, 0);
    assert_eq!(s.candidates.len(), 3);
}

#[test]
fn cursor_stays_within_bounds() {
    let mut s = chooser(&["a", "b"]);
    assert_eq!(s.handle(SelectorKey::MoveUp), SelectorStep::Continue);
    assert_eq!(s.cursor, 0);
    s.handle(SelectorKey::MoveDown);
    s.handle(SelectorKey::MoveDown);
    assert_eq!(s.cursor, 1);
    s.handle(SelectorKey::Other);
    assert_eq!(s.cursor, 1);
    s.handle(SelectorKey::MoveUp);
    assert_eq!(s.cursor, 0);
}

#[test]
fn confirm_and_cancel_end_the_choice() {
    let mut s = chooser(&["a", "b"]);
    s.handle(SelectorKey::MoveDown);
    assert_eq!(s.handle(SelectorKey::Confirm), SelectorStep::Selected(1));
    assert_eq!(s.handle(SelectorKey::Cancel), SelectorStep::Aborted);
    assert_eq!(s.current().name, "b");
}

#[test]
fn run_over_keys() {
    let mut s = chooser(&["a", "b", "c"]);
    let keys = vec![SelectorKey::MoveDown, SelectorKey::MoveDown, SelectorKey::MoveUp, SelectorKey::Confirm];
    assert_eq!(s.run(&keys).unwrap().name, "b");
    let mut s = chooser(&["a", "b"]);
    assert!(s.run(&vec![SelectorKey::MoveDown, SelectorKey::Cancel, SelectorKey::Confirm]).is_none());
    let mut s = chooser(&["a", "b"]);
    assert!(s.run(&vec![SelectorKey::MoveDown]).is_none());
}

#[test]
fn display_marks_cursor_row() {
    let mut s = chooser(&["a", "b", "c"]);
    s.handle(SelectorKey::MoveDown);
    let lines = s.display_lines();
    let texts: Vec<(&str, LineKind)> = lines.iter().map(|(t, k)| (t.as_str(), *k)).collect();
    assert_eq!(
        texts,
        vec![
            ("a", LineKind::Entry),
            ("b", LineKind::Current),
            ("host/b", LineKind::Detail),
            ("c", LineKind::Entry),
        ]
    );
}
