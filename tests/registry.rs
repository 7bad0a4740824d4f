use project_man::error::ProjectManError;
use project_man::registry::{RepositoryConfig, StoredRegistry, WorkspaceRegistry};
use project_man::time::Timestamp;

fn at(seconds: i64) -> Timestamp {
    Timestamp { seconds, nanos: 0 }
}

fn record(path: &str) -> RepositoryConfig {
    RepositoryConfig::new_at(path.to_string(), format!("https://example.com/{}.git", path), vec![], at(100))
}

fn registry_with(entries: &[(&str, &str)]) -> WorkspaceRegistry {
    let mut reg = WorkspaceRegistry::new_at(at(50));
    for (name, path) in entries {
        reg.add_repository_at(name.to_string(), record(path), at(60)).unwrap();
    }
    reg
}

#[test]
fn new_registry_is_empty() {
    let reg = WorkspaceRegistry::new_at(at(7));
    assert_eq!(reg.version, "1.0");
    assert_eq!(reg.created_at, at(7));
    assert_eq!(reg.updated_at, at(7));
    assert!(reg.repositories.is_empty());
}

#[test]
fn add_then_get() {
    let mut reg = WorkspaceRegistry::new_at(at(1));
    reg.add_repository_at("a".to_string(), record("x/a"), at(5)).unwrap();
    let got = reg.get_repository("a").unwrap();
    assert_eq!(got.path, "x/a");
    assert_eq!(reg.updated_at, at(5));
    assert!(reg.get_repository("b").is_none());
}

#[test]
fn adding_same_name_twice_is_duplicate() {
    let mut reg = registry_with(&[("a", "x/a")]);
    let err = reg.add_repository_at("a".to_string(), record("y/b"), at(70)).unwrap_err();
    assert_eq!(err, ProjectManError::DuplicateName("a".to_string()));
    assert_eq!(reg.repositories.len(), 1);
}

#[test]
fn adding_same_directory_is_collision() {
    let mut reg = registry_with(&[("a", "x/a")]);
    let err = reg.add_repository_at("b".to_string(), record("x/a"), at(70)).unwrap_err();
    assert_eq!(err, ProjectManError::PathCollision("x/a".to_string()));
    let err = reg.add_repository_at("c".to_string(), record("./x//a/"), at(70)).unwrap_err();
    assert_eq!(err, ProjectManError::PathCollision("./x//a/".to_string()));
    assert_eq!(reg.repositories.len(), 1);
    assert_eq!(reg.updated_at, at(60));
}

#[test]
fn parent_steps_resolve_to_same_directory() {
    let mut reg = registry_with(&[("a", "x/a")]);
    let err = reg.add_repository_at("b".to_string(), record("x/b/../a"), at(70)).unwrap_err();
    assert_eq!(err, ProjectManError::PathCollision("x/b/../a".to_string()));
    assert!(reg.add_repository_at("c".to_string(), record("../x/a"), at(70)).is_ok());
    let mut abs = registry_with(&[("r", "/top")]);
    let err = abs.add_repository_at("s".to_string(), record("/../top"), at(70)).unwrap_err();
    assert_eq!(err, ProjectManError::PathCollision("/../top".to_string()));
}

#[test]
fn distinct_directories_are_accepted() {
    let mut reg = registry_with(&[("a", "x/a")]);
    assert!(reg.add_repository_at("b".to_string(), record("x/ab"), at(70)).is_ok());
    assert!(reg.add_repository_at("c".to_string(), record("/x/a"), at(70)).is_ok());
    assert_eq!(reg.repositories.len(), 3);
}

#[test]
fn remove_is_idempotent() {
    let mut reg = registry_with(&[("a", "x/a"), ("b", "x/b")]);
    let removed = reg.remove_repository_at("a", at(90)).unwrap();
    assert_eq!(removed.path, "x/a");
    assert_eq!(reg.updated_at, at(90));
    assert!(reg.remove_repository_at("a", at(95)).is_none());
    assert_eq!(reg.updated_at, at(90));
    assert_eq!(reg.repositories.len(), 1);
    assert_eq!(reg.repositories[0].0, "b");
}

#[test]
fn update_last_sync_marks_record() {
    let mut reg = registry_with(&[("a", "x/a")]);
    reg.update_last_sync_at("a", at(200)).unwrap();
    assert_eq!(reg.get_repository("a").unwrap().last_sync, Some(at(200)));
    assert_eq!(reg.updated_at, at(200));
}

#[test]
fn update_last_sync_of_unknown_is_not_found() {
    let mut reg = registry_with(&[("a", "x/a")]);
    let err = reg.update_last_sync_at("zz", at(200)).unwrap_err();
    assert_eq!(err, ProjectManError::RepositoryNotFound("zz".to_string()));
    assert_eq!(reg.updated_at, at(60));
}

#[test]
fn updated_at_never_moves_back() {
    let mut reg = registry_with(&[("a", "x/a")]);
    reg.save_at(true, at(10)).unwrap();
    assert_eq!(reg.updated_at, at(60));
    reg.save_at(true, at(61)).unwrap();
    assert_eq!(reg.updated_at, at(61));
}

#[test]
fn save_without_workspace_fails() {
    let mut reg = registry_with(&[("a", "x/a")]);
    assert_eq!(reg.save_at(false, at(99)).unwrap_err(), ProjectManError::WorkspaceNotFound);
    assert_eq!(reg.updated_at, at(60));
}

#[test]
fn save_then_load_keeps_records() {
    let mut reg = registry_with(&[("a", "x/a"), ("b", "x/b")]);
    reg.save_at(true, at(300)).unwrap();
    let names: Vec<String> = reg.repositories.iter().map(|(n, _)| n.clone()).collect();
    let loaded = WorkspaceRegistry::load_from_workspace(StoredRegistry::Found(reg), &vec![true, true], false).unwrap();
    let loaded_names: Vec<String> = loaded.repositories.iter().map(|(n, _)| n.clone()).collect();
    assert_eq!(loaded_names, names);
    assert_eq!(loaded.repositories[1].1.path, "x/b");
    assert_eq!(loaded.updated_at, at(300));
}

#[test]
fn load_drops_missing_directories() {
    let reg = registry_with(&[("a", "x/a"), ("b", "x/b"), ("c", "x/c")]);
    let loaded = WorkspaceRegistry::load_from_workspace(StoredRegistry::Found(reg), &vec![true, false], false).unwrap();
    let names: Vec<&str> = loaded.repositories.iter().map(|(n, _)| n.as_str()).collect();
    assert_eq!(names, vec!["a"]);
}

#[test]
fn load_without_workspace_is_not_initialized() {
    let r = WorkspaceRegistry::load_from_workspace(StoredRegistry::NoWorkspace, &vec![], true);
    assert_eq!(r.unwrap_err(), ProjectManError::WorkspaceNotFound);
}

#[test]
fn load_without_file_needs_creation() {
    let r = WorkspaceRegistry::load_from_workspace(StoredRegistry::Missing, &vec![], false);
    assert_eq!(r.unwrap_err(), ProjectManError::WorkspaceNotFound);
    let r = WorkspaceRegistry::load_from_workspace(StoredRegistry::Missing, &vec![], true).unwrap();
    assert!(r.repositories.is_empty());
    assert_eq!(r.version, "1.0");
}

#[test]
fn load_of_corrupt_file_fails() {
    let r = WorkspaceRegistry::load_from_workspace(StoredRegistry::Corrupt("bad yaml".to_string()), &vec![], false);
    assert_eq!(r.unwrap_err(), ProjectManError::Yaml("bad yaml".to_string()));
}

#[test]
fn load_with_repeated_name_fails() {
    let mut reg = registry_with(&[("a", "x/a")]);
    reg.repositories.push(("a".to_string(), record("x/other")));
    let r = WorkspaceRegistry::load_from_workspace(StoredRegistry::Found(reg), &vec![true, true], false);
    assert!(matches!(r, Err(ProjectManError::Yaml(_))));
}

#[test]
fn find_ignores_case() {
    let reg = registry_with(&[("github.com_User_Tool", "x/a"), ("other", "x/b")]);
    let found = reg.find_repositories("user_TOOL");
    assert_eq!(found.len(), 1);
    assert_eq!(found[0].0, "github.com_User_Tool");
    assert!(reg.find_repositories("zzz").is_empty());
}

#[test]
fn list_keeps_registry_order() {
    let reg = registry_with(&[("b", "x/b"), ("a", "x/a")]);
    let listed: Vec<&str> = reg.list_repositories().iter().map(|(n, _)| n.as_str()).collect();
    assert_eq!(listed, vec!["b", "a"]);
}

#[test]
fn full_path_joins_root() {
    let reg = WorkspaceRegistry::new_at(at(1));
    assert_eq!(reg.get_full_path("/ws", &record("x/a")), "/ws/x/a");
    assert_eq!(reg.get_full_path("/ws/", &record("x/a")), "/ws/x/a");
    assert_eq!(reg.get_full_path("/ws", &record("/abs/a")), "/abs/a");
    assert_eq!(reg.get_full_path("", &record("x/a")), "x/a");
}

#[test]
fn record_clone_keeps_fields() {
    let mut r = record("x/a");
    r.tags = vec!["migrated".to_string(), "t".to_string()];
    let c = r.clone();
    assert_eq!(c.path, r.path);
    assert_eq!(c.tags, r.tags);
    assert_eq!(c.added_at, r.added_at);
}
