//! The user's global configuration and reading or changing one setting by
//! its dotted key.

use vstd::prelude::*;
use crate::error::ProjectManError;
use crate::text::{
    bool_text, bool_to_text, decimal_digits, decimal_text, parse_bool, parse_usize, parsed_bool,
    parsed_usize, str_eq,
};
use crate::time::{in_chrono_range, now_or_epoch, rfc3339, rfc3339_text, Timestamp};

verus! {

/// Where the workspace is and when it was set up.
#[derive(Debug)]
pub struct WorkspaceConfig {
    pub path: String,
    pub created_at: Timestamp,
}

/// How shorthand repository references become clone URLs.
#[derive(Debug)]
pub struct GitConfig {
    pub default_host: String,
    /// `ssh` or `https`.
    pub default_protocol: String,
    pub ssh_key_path: Option<String>,
}

/// Resolver settings held as integers and flags.
#[derive(Debug)]
pub struct SearchConfig {
    pub max_results: usize,
    pub case_sensitive: bool,
}

/// Terminal presentation settings.
#[derive(Debug)]
pub struct UiConfig {
    pub confirm_destructive_actions: bool,
    pub use_colors: bool,
    pub pager: String,
}

impl Default for GitConfig {
    fn default() -> (r: Self)
        ensures
            r.default_host@ == "github.com"@,
            r.default_protocol@ == "ssh"@,
            r.ssh_key_path is None,
    {
        GitConfig {
            default_host: String::from_str("github.com"),
            default_protocol: String::from_str("ssh"),
            ssh_key_path: None,
        }
    }
}

impl Default for SearchConfig {
    fn default() -> (r: Self)
        ensures
            r.max_results == 10,
            !r.case_sensitive,
    {
        SearchConfig { max_results: 10, case_sensitive: false }
    }
}

impl Default for UiConfig {
    fn default() -> (r: Self)
        ensures
            r.confirm_destructive_actions,
            r.use_colors,
            r.pager@ == "less"@,
    {
        UiConfig { confirm_destructive_actions: true, use_colors: true, pager: String::from_str("less") }
    }
}

/// The global configuration.
#[derive(Debug)]
pub struct GlobalConfig {
    pub workspace: WorkspaceConfig,
    pub git: GitConfig,
    pub search: SearchConfig,
    pub ui: UiConfig,
}

/// The configuration as plain values.
pub struct ConfigView {
    pub workspace_path: Seq<char>,
    pub created_at: Timestamp,
    pub default_host: Seq<char>,
    pub default_protocol: Seq<char>,
    pub ssh_key_path: Option<Seq<char>>,
    pub max_results: usize,
    pub case_sensitive: bool,
    pub confirm_destructive_actions: bool,
    pub use_colors: bool,
    pub pager: Seq<char>,
}

impl View for GlobalConfig {
    type V = ConfigView;

    open spec fn view(&self) -> ConfigView {
        ConfigView {
            workspace_path: self.workspace.path@,
            created_at: self.workspace.created_at,
            default_host: self.git.default_host@,
            default_protocol: self.git.default_protocol@,
            ssh_key_path: match self.git.ssh_key_path {
                Some(p) => Some(p@),
                None => None,
            },
            max_results: self.search.max_results,
            case_sensitive: self.search.case_sensitive,
            confirm_destructive_actions: self.ui.confirm_destructive_actions,
            use_colors: self.ui.use_colors,
            pager: self.ui.pager@,
        }
    }
}

/// The configuration after setting `key` to `value`, or nothing when the key
/// is unknown or the value is refused.
pub open spec fn config_set(v: ConfigView, key: Seq<char>, value: Seq<char>) -> Option<ConfigView> {
    if key == "git.default_host"@ {
        Some(ConfigView { default_host: value, ..v })
    } else if key == "git.default_protocol"@ {
        if value == "ssh"@ || value == "https"@ {
            Some(ConfigView { default_protocol: value, ..v })
        } else {
            None
        }
    } else if key == "search.max_results"@ {
        match parsed_usize(value) {
            Some(n) => Some(ConfigView { max_results: n, ..v }),
            None => None,
        }
    } else if key == "search.case_sensitive"@ {
        match parsed_bool(value) {
            Some(b) => Some(ConfigView { case_sensitive: b, ..v }),
            None => None,
        }
    } else if key == "ui.confirm_destructive_actions"@ {
        match parsed_bool(value) {
            Some(b) => Some(ConfigView { confirm_destructive_actions: b, ..v }),
            None => None,
        }
    } else if key == "ui.use_colors"@ {
        match parsed_bool(value) {
            Some(b) => Some(ConfigView { use_colors: b, ..v }),
            None => None,
        }
    } else if key == "ui.pager"@ {
        Some(ConfigView { pager: value, ..v })
    } else {
        None
    }
}

/// The text of the setting `key`, or nothing when the key is unknown. The
/// creation time reads as chrono's RFC 3339 text.
pub open spec fn config_get(v: ConfigView, key: Seq<char>) -> Option<Seq<char>> {
    if key == "workspace.path"@ {
        Some(v.workspace_path)
    } else if key == "workspace.created_at"@ {
        Some(rfc3339_text(v.created_at.seconds as int, v.created_at.nanos as int))
    } else if key == "git.default_host"@ {
        Some(v.default_host)
    } else if key == "git.default_protocol"@ {
        Some(v.default_protocol)
    } else if key == "search.max_results"@ {
        Some(decimal_digits(v.max_results as nat))
    } else if key == "search.case_sensitive"@ {
        Some(bool_text(v.case_sensitive))
    } else if key == "ui.confirm_destructive_actions"@ {
        Some(bool_text(v.confirm_destructive_actions))
    } else if key == "ui.use_colors"@ {
        Some(bool_text(v.use_colors))
    } else if key == "ui.pager"@ {
        Some(v.pager)
    } else {
        None
    }
}

fn config_error(prefix: &str, detail: &str) -> (r: ProjectManError)
    ensures
        r matches ProjectManError::Config(m) && m@ == prefix@ + detail@,
{
    let mut m = String::from_str(prefix);
    m.append(detail);
    ProjectManError::Config(m)
}

impl GlobalConfig {
    /// A configuration for the workspace at `workspace_path`, set up at
    /// `now`, with default settings.
    pub fn new_at(workspace_path: String, now: Timestamp) -> (r: Self)
        ensures
            r@.workspace_path == workspace_path@,
            r@.created_at == now,
            r@.default_host == "github.com"@,
            r@.default_protocol == "ssh"@,
            r@.ssh_key_path is None,
            r@.max_results == 10,
            !r@.case_sensitive,
            r@.confirm_destructive_actions,
            r@.use_colors,
            r@.pager == "less"@,
    {
        GlobalConfig {
            workspace: WorkspaceConfig { path: workspace_path, created_at: now },
            git: GitConfig::default(),
            search: SearchConfig::default(),
            ui: UiConfig::default(),
        }
    }

    /// A configuration for the workspace at `workspace_path`, set up now,
    /// with default settings.
    pub fn new(workspace_path: String) -> (r: Self)
        ensures
            r@.workspace_path == workspace_path@,
            r@.default_host == "github.com"@,
            r@.default_protocol == "ssh"@,
            r@.ssh_key_path is None,
            r@.max_results == 10,
            !r@.case_sensitive,
            r@.confirm_destructive_actions,
            r@.use_colors,
            r@.pager == "less"@,
    {
        Self::new_at(workspace_path, now_or_epoch())
    }

    /// The workspace root.
    pub fn get_workspace_path(&self) -> (r: &String)
        ensures
            r@ == self@.workspace_path,
    {
        &self.workspace.path
    }

    /// Sets the setting `key` to `value`. Fails with `Config`, changing
    /// nothing, when the key is unknown, the protocol is neither `ssh` nor
    /// `https`, or a number or flag does not parse.
    pub fn set_value(&mut self, key: &str, value: &str) -> (r: Result<(), ProjectManError>)
        ensures
            config_set(old(self)@, key@, value@) matches Some(v) ==> r is Ok && final(self)@ == v,
            config_set(old(self)@, key@, value@) is None ==> (r matches Err(
                ProjectManError::Config(_),
            )) && final(self)@ == old(self)@,
    {
        if str_eq(key, "git.default_host") {
            self.git.default_host = String::from_str(value);
        } else if str_eq(key, "git.default_protocol") {
            if str_eq(value, "ssh") || str_eq(value, "https") {
                self.git.default_protocol = String::from_str(value);
            } else {
                return Err(config_error("git.default_protocol must be 'ssh' or 'https'", ""));
            }
        } else if str_eq(key, "search.max_results") {
            match parse_usize(value) {
                Some(n) => {
                    self.search.max_results = n;
                },
                None => {
                    return Err(config_error("Invalid max_results value", ""));
                },
            }
        } else if str_eq(key, "search.case_sensitive") {
            match parse_bool(value) {
                Some(b) => {
                    self.search.case_sensitive = b;
                },
                None => {
                    return Err(config_error("Invalid case_sensitive value", ""));
                },
            }
        } else if str_eq(key, "ui.confirm_destructive_actions") {
            match parse_bool(value) {
                Some(b) => {
                    self.ui.confirm_destructive_actions = b;
                },
                None => {
                    return Err(config_error("Invalid confirm_destructive_actions value", ""));
                },
            }
        } else if str_eq(key, "ui.use_colors") {
            match parse_bool(value) {
                Some(b) => {
                    self.ui.use_colors = b;
                },
                None => {
                    return Err(config_error("Invalid use_colors value", ""));
                },
            }
        } else if str_eq(key, "ui.pager") {
            self.ui.pager = String::from_str(value);
        } else {
            return Err(config_error("Unknown configuration key: ", key));
        }
        Ok(())
    }

    /// The text of the setting `key`. Fails with `Config` when the key is
    /// unknown; the creation time reads whenever it lies in chrono's range.
    pub fn get_value(&self, key: &str) -> (r: Result<String, ProjectManError>)
        ensures
            config_get(self@, key@) is None ==> r matches Err(ProjectManError::Config(_)),
            r matches Ok(s) ==> config_get(self@, key@) == Some(s@),
            config_get(self@, key@) is Some && (key@ != "workspace.created_at"@ || in_chrono_range(
                self@.created_at,
            )) ==> r is Ok,
    {
        if str_eq(key, "workspace.path") {
            Ok(self.workspace.path.clone())
        } else if str_eq(key, "workspace.created_at") {
            match rfc3339(self.workspace.created_at) {
                Some(s) => Ok(s),
                None => Err(config_error("workspace.created_at is outside the representable range", "")),
            }
        } else if str_eq(key, "git.default_host") {
            Ok(self.git.default_host.clone())
        } else if str_eq(key, "git.default_protocol") {
            Ok(self.git.default_protocol.clone())
        } else if str_eq(key, "search.max_results") {
            Ok(decimal_text(self.search.max_results as u64))
        } else if str_eq(key, "search.case_sensitive") {
            Ok(bool_to_text(self.search.case_sensitive))
        } else if str_eq(key, "ui.confirm_destructive_actions") {
            Ok(bool_to_text(self.ui.confirm_destructive_actions))
        } else if str_eq(key, "ui.use_colors") {
            Ok(bool_to_text(self.ui.use_colors))
        } else if str_eq(key, "ui.pager") {
            Ok(self.ui.pager.clone())
        } else {
            Err(config_error("Unknown configuration key: ", key))
        }
    }
}

} // verus!
