use project_man::config::{GitConfig, GlobalConfig, SearchConfig, UiConfig};
use project_man::error::ProjectManError;
use project_man::time::{format_relative_time, format_relative_time_at, Timestamp};

fn config() -> GlobalConfig {
    GlobalConfig::new_at("/home/me/ws".to_string(), Timestamp { seconds: 0, nanos: 0 })
}

#[test]
fn defaults() {
    let g = GitConfig::default();
    assert_eq!(g.default_host, "github.com");
    assert_eq!(g.default_protocol, "ssh");
    assert!(g.ssh_key_path.is_none());
    let s = SearchConfig::default();
    assert_eq!(s.max_results, 10);
    assert!(!s.case_sensitive);
    let u = UiConfig::default();
    assert!(u.confirm_destructive_actions);
    assert!(u.use_colors);
    assert_eq!(u.pager, "less");
}

#[test]
fn set_and_get_each_key() {
    let mut c = config();
    c.set_value("git.default_host", "gitlab.com").unwrap();
    c.set_value("git.default_protocol", "https").unwrap();
    c.set_value("search.max_results", "25").unwrap();
    c.set_value("search.case_sensitive", "true").unwrap();
    c.set_value("ui.confirm_destructive_actions", "false").unwrap();
    c.set_value("ui.use_colors", "false").unwrap();
    c.set_value("ui.pager", "more").unwrap();
    assert_eq!(c.get_value("git.default_host").unwrap(), "gitlab.com");
    assert_eq!(c.get_value("git.default_protocol").unwrap(), "https");
    assert_eq!(c.get_value("search.max_results").unwrap(), "25");
    assert_eq!(c.get_value("search.case_sensitive").unwrap(), "true");
    assert_eq!(c.get_value("ui.confirm_destructive_actions").unwrap(), "false");
    assert_eq!(c.get_value("ui.use_colors").unwrap(), "false");
    assert_eq!(c.get_value("ui.pager").unwrap(), "more");
    assert_eq!(c.get_value("workspace.path").unwrap(), "/home/me/ws");
    assert_eq!(c.get_workspace_path(), "/home/me/ws");
}

#[test]
fn created_at_reads_as_rfc3339() {
    let c = config();
    assert_eq!(c.get_value("workspace.created_at").unwrap(), "1970-01-01T00:00:00+00:00");
}

#[test]
fn protocol_must_be_ssh_or_https() {
    let mut c = config();
    let err = c.set_value("git.default_protocol", "ftp").unwrap_err();
    assert_eq!(err, ProjectManError::Config("git.default_protocol must be 'ssh' or 'https'".to_string()));
    assert_eq!(c.git.default_protocol, "ssh");
}

#[test]
fn numbers_and_flags_must_parse() {
    let mut c = config();
    assert_eq!(
        c.set_value("search.max_results", "-3").unwrap_err(),
        ProjectManError::Config("Invalid max_results value".to_string())
    );
    assert!(c.set_value("search.max_results", "99999999999999999999999").is_err());
    assert!(c.set_value("search.max_results", "+7").is_ok());
    assert_eq!(c.search.max_results, 7);
    assert_eq!(
        c.set_value("ui.use_colors", "yes").unwrap_err(),
        ProjectManError::Config("Invalid use_colors value".to_string())
    );
    assert!(c.set_value("search.case_sensitive", "True").is_err());
}

#[test]
fn unknown_key_is_refused() {
    let mut c = config();
    assert_eq!(
        c.set_value("ui.theme", "dark").unwrap_err(),
        ProjectManError::Config("Unknown configuration key: ui.theme".to_string())
    );
    assert_eq!(
        c.get_value("nope").unwrap_err(),
        ProjectManError::Config("Unknown configuration key: nope".to_string())
    );
}

fn ago(seconds: i64) -> String {
    format_relative_time_at(Timestamp { seconds: 1_000_000, nanos: 0 }, Timestamp { seconds: 1_000_000 + seconds, nanos: 0 })
}

#[test]
fn relative_times() {
    assert_eq!(ago(-5), "just now");
    assert_eq!(ago(59), "just now");
    assert_eq!(ago(60), "1 minutes ago");
    assert_eq!(ago(3599), "59 minutes ago");
    assert_eq!(ago(7200), "2 hours ago");
    assert_eq!(ago(3 * 86400), "3 days ago");
    assert_eq!(ago(15 * 86400), "2 weeks ago");
    assert_eq!(ago(90 * 86400), "3 months ago");
}

#[test]
fn relative_time_of_the_distant_past() {
    let s = format_relative_time(Timestamp { seconds: 0, nanos: 0 });
    assert!(s.ends_with(" months ago"));
}

#[test]
fn nanoseconds_borrow_a_second() {
    let then = Timestamp { seconds: 100, nanos: 900_000_000 };
    let now = Timestamp { seconds: 160, nanos: 100_000_000 };
    assert_eq!(format_relative_time_at(then, now), "just now");
}
