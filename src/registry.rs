//! The registry of tracked repositories: records keyed by a unique name, with
//! the checks made when one is added and the steps of loading and saving.

use vstd::prelude::*;
use crate::error::ProjectManError;
use crate::paths::{is_same_directory, join_path, joined_path, same_directory, views};
use crate::text::{contains_seq, contains_str, lower_of, str_eq, to_lowercase};
use crate::time::{now_or_epoch, Timestamp};

verus! {

/// One tracked repository.
#[derive(Debug)]
pub struct RepositoryConfig {
    /// The checkout's directory, relative to the workspace root.
    pub path: String,
    /// The URL it was cloned from.
    pub url: String,
    pub added_at: Timestamp,
    /// When a reconciliation last found it current.
    pub last_sync: Option<Timestamp>,
    /// Free-form labels.
    pub tags: Vec<String>,
}

/// A record as plain values.
pub struct RecordView {
    pub path: Seq<char>,
    pub url: Seq<char>,
    pub added_at: Timestamp,
    pub last_sync: Option<Timestamp>,
    pub tags: Seq<Seq<char>>,
}

impl View for RepositoryConfig {
    type V = RecordView;

    open spec fn view(&self) -> RecordView {
        RecordView {
            path: self.path@,
            url: self.url@,
            added_at: self.added_at,
            last_sync: self.last_sync,
            tags: views(self.tags@),
        }
    }
}

/// A copy of each string, in order.
pub fn copy_texts(v: &Vec<String>) -> (r: Vec<String>)
    ensures
        views(r@) == views(v@),
{
    let mut out: Vec<String> = Vec::new();
    let mut i: usize = 0;
    while i < v.len()
        invariant
            i <= v@.len(),
            out@.len() == i,
            forall|j: int| 0 <= j < i ==> out@[j]@ == v@[j]@,
        decreases v.len() - i,
    {
        let c = v[i].clone();
        out.push(c);
        i += 1;
    }
    assert(views(out@) =~= views(v@));
    out
}

impl Clone for RepositoryConfig {
    fn clone(&self) -> (r: Self)
        ensures
            r@ == self@,
    {
        RepositoryConfig {
            path: self.path.clone(),
            url: self.url.clone(),
            added_at: self.added_at,
            last_sync: self.last_sync,
            tags: copy_texts(&self.tags),
        }
    }
}

impl RepositoryConfig {
    /// A record added at `now`, never synchronized.
    pub fn new_at(path: String, url: String, tags: Vec<String>, now: Timestamp) -> (r: Self)
        ensures
            r@ == (RecordView { path: path@, url: url@, added_at: now, last_sync: None, tags: views(tags@) }),
    {
        RepositoryConfig { path, url, added_at: now, last_sync: None, tags }
    }

    /// A record added now, never synchronized.
    pub fn new(path: String, url: String, tags: Vec<String>) -> (r: Self)
        ensures
            r@.path == path@,
            r@.url == url@,
            r@.last_sync is None,
            r@.tags == views(tags@),
    {
        Self::new_at(path, url, tags, now_or_epoch())
    }
}

/// The registry as plain values.
pub struct RegistryView {
    pub version: Seq<char>,
    pub created_at: Timestamp,
    pub updated_at: Timestamp,
    pub entries: Seq<(Seq<char>, RecordView)>,
}

/// The entries of a registry as plain values.
pub open spec fn entry_views(v: Seq<(String, RepositoryConfig)>) -> Seq<(Seq<char>, RecordView)> {
    v.map_values(|e: (String, RepositoryConfig)| (e.0@, e.1@))
}

/// Borrowed entries as plain values.
pub open spec fn ref_views(v: Seq<(&String, &RepositoryConfig)>) -> Seq<(Seq<char>, RecordView)> {
    v.map_values(|e: (&String, &RepositoryConfig)| (e.0@, e.1@))
}

/// Some entry has this name.
pub open spec fn has_name(e: Seq<(Seq<char>, RecordView)>, name: Seq<char>) -> bool {
    exists|i: int| 0 <= i < e.len() && e[i].0 == name
}

/// Where the entry with this name stands (meaningful when there is one).
pub open spec fn position_of(e: Seq<(Seq<char>, RecordView)>, name: Seq<char>) -> int {
    choose|i: int| 0 <= i < e.len() && e[i].0 == name
}

/// No two entries share a name.
pub open spec fn names_unique(e: Seq<(Seq<char>, RecordView)>) -> bool {
    forall|i: int, j: int| 0 <= i < j < e.len() ==> e[i].0 != e[j].0
}

/// Some entry's checkout is the directory `path` names.
pub open spec fn holds_directory(e: Seq<(Seq<char>, RecordView)>, path: Seq<char>) -> bool {
    exists|i: int| 0 <= i < e.len() && same_directory(e[i].1.path, path)
}

/// The entries whose index is marked present.
pub open spec fn kept<E>(e: Seq<E>, present: Seq<bool>) -> Seq<E>
    decreases e.len(),
{
    if e.len() == 0 {
        e
    } else {
        let rest = kept(e.drop_last(), present);
        if e.len() - 1 < present.len() && present[e.len() - 1] {
            rest.push(e.last())
        } else {
            rest
        }
    }
}

/// Every entry kept was among the entries.
pub proof fn lemma_kept_within<E>(e: Seq<E>, present: Seq<bool>, x: E)
    requires
        kept(e, present).contains(x),
    ensures
        e.contains(x),
    decreases e.len(),
{
    if e.len() > 0 {
        let d = e.drop_last();
        let k = kept(e, present);
        let kd = kept(d, present);
        if kd.contains(x) {
            lemma_kept_within(d, present, x);
            let i = choose|i: int| 0 <= i < d.len() && d[i] == x;
            assert(e[i] == x);
        } else {
            let i = choose|i: int| 0 <= i < k.len() && k[i] == x;
            if i < kd.len() {
                assert(kd[i] == x);
            }
            assert(e[e.len() - 1] == x);
        }
    }
}

/// Keeping some entries keeps the names unique.
pub proof fn lemma_kept_unique(e: Seq<(Seq<char>, RecordView)>, present: Seq<bool>)
    requires
        names_unique(e),
    ensures
        names_unique(kept(e, present)),
    decreases e.len(),
{
    if e.len() > 0 {
        let d = e.drop_last();
        lemma_kept_unique(d, present);
        let k = kept(e, present);
        let kd = kept(d, present);
        if e.len() - 1 < present.len() && present[e.len() - 1] {
            assert forall|i: int, j: int| 0 <= i < j < k.len() implies k[i].0 != k[j].0 by {
                if j == k.len() - 1 {
                    assert(kd[i] == k[i]);
                    assert(kd.contains(k[i]));
                    lemma_kept_within(d, present, k[i]);
                    let a = choose|a: int| 0 <= a < d.len() && d[a] == k[i];
                    assert(e[a] == d[a]);
                }
            }
        }
    }
}

/// The entries whose lowercased name contains the lowercased pattern.
pub open spec fn name_matches(
    e: Seq<(Seq<char>, RecordView)>,
    pattern: Seq<char>,
) -> Seq<(Seq<char>, RecordView)>
    decreases e.len(),
{
    if e.len() == 0 {
        e
    } else {
        let rest = name_matches(e.drop_last(), pattern);
        if contains_seq(lower_of(e.last().0), lower_of(pattern)) {
            rest.push(e.last())
        } else {
            rest
        }
    }
}

/// The registry after `name` is added with `rec` at `now`.
pub open spec fn with_added(
    r: RegistryView,
    name: Seq<char>,
    rec: RecordView,
    now: Timestamp,
) -> RegistryView {
    RegistryView {
        entries: r.entries.push((name, rec)),
        updated_at: r.updated_at.spec_later(now),
        ..r
    }
}

/// The registry after the record named `name` is marked synchronized at `now`.
pub open spec fn with_synced(r: RegistryView, name: Seq<char>, now: Timestamp) -> RegistryView {
    let k = position_of(r.entries, name);
    RegistryView {
        entries: r.entries.update(k, (name, RecordView { last_sync: Some(now), ..r.entries[k].1 })),
        updated_at: r.updated_at.spec_later(now),
        ..r
    }
}

/// The registry as written at `now`: its update time advanced.
pub open spec fn saved_view(r: RegistryView, now: Timestamp) -> RegistryView {
    RegistryView { updated_at: r.updated_at.spec_later(now), ..r }
}

/// The registry as read back, with only the entries marked present.
pub open spec fn loaded_view(r: RegistryView, present: Seq<bool>) -> RegistryView {
    RegistryView { entries: kept(r.entries, present), ..r }
}

proof fn lemma_kept_all<E>(e: Seq<E>, present: Seq<bool>)
    requires
        e.len() <= present.len(),
        forall|i: int| 0 <= i < present.len() ==> present[i],
    ensures
        kept(e, present) == e,
    decreases e.len(),
{
    if e.len() > 0 {
        lemma_kept_all(e.drop_last(), present);
        assert(e.drop_last().push(e.last()) =~= e);
    }
}

/// Saving a registry and loading it back, while every checkout directory
/// still exists, yields the same records in the same order, and the same
/// version and creation time.
pub proof fn lemma_save_load_round_trip(r: RegistryView, now: Timestamp, present: Seq<bool>)
    requires
        names_unique(r.entries),
        r.entries.len() <= present.len(),
        forall|i: int| 0 <= i < present.len() ==> present[i],
    ensures
        loaded_view(saved_view(r, now), present).entries == r.entries,
        loaded_view(saved_view(r, now), present).version == r.version,
        loaded_view(saved_view(r, now), present).created_at == r.created_at,
        r.updated_at.spec_le(loaded_view(saved_view(r, now), present).updated_at),
{
    lemma_kept_all(r.entries, present);
}

/// After a record is added, adding one more under the same name is refused
/// as a duplicate, and adding one under a new name whose path names the same
/// directory is refused as a collision.
pub proof fn lemma_second_add_refused(
    r: RegistryView,
    name: Seq<char>,
    rec: RecordView,
    now: Timestamp,
    other_path: Seq<char>,
)
    requires
        names_unique(r.entries),
        !has_name(r.entries, name),
        !holds_directory(r.entries, rec.path),
        same_directory(rec.path, other_path),
    ensures
        has_name(with_added(r, name, rec, now).entries, name),
        holds_directory(with_added(r, name, rec, now).entries, other_path),
        names_unique(with_added(r, name, rec, now).entries),
{
    let e = with_added(r, name, rec, now).entries;
    assert(e[r.entries.len() as int] == (name, rec));
    assert forall|i: int, j: int| 0 <= i < j < e.len() implies e[i].0 != e[j].0 by {
        if j == r.entries.len() {
            assert(e[i] == r.entries[i]);
        }
    }
}

/// No mutation moves the update time back: adding, marking synchronized,
/// saving and removing (whose result carries `updated_at.spec_later(now)`)
/// all leave it at or after where it was.
pub proof fn lemma_updated_at_monotonic(
    r: RegistryView,
    name: Seq<char>,
    rec: RecordView,
    now: Timestamp,
)
    ensures
        r.updated_at.spec_le(with_added(r, name, rec, now).updated_at),
        r.updated_at.spec_le(with_synced(r, name, now).updated_at),
        r.updated_at.spec_le(saved_view(r, now).updated_at),
        r.updated_at.spec_le(r.updated_at.spec_later(now)),
{
}

/// What the registry file held when it was looked for.
#[derive(Debug)]
pub enum StoredRegistry {
    /// The workspace directory itself is absent.
    NoWorkspace,
    /// The workspace exists but holds no registry file.
    Missing,
    /// The file exists but could not be decoded; the decoder's message.
    Corrupt(String),
    /// The decoded registry.
    Found(WorkspaceRegistry),
}

/// The durable set of tracked repositories.
#[derive(Debug)]
pub struct WorkspaceRegistry {
    pub version: String,
    pub created_at: Timestamp,
    pub updated_at: Timestamp,
    /// Name and record of each repository, in the order they were added.
    pub repositories: Vec<(String, RepositoryConfig)>,
}

impl View for WorkspaceRegistry {
    type V = RegistryView;

    open spec fn view(&self) -> RegistryView {
        RegistryView {
            version: self.version@,
            created_at: self.created_at,
            updated_at: self.updated_at,
            entries: entry_views(self.repositories@),
        }
    }
}

impl WorkspaceRegistry {
    /// Names are unique.
    pub open spec fn wf(&self) -> bool {
        names_unique(self@.entries)
    }

    /// An empty registry created at `now`.
    pub fn new_at(now: Timestamp) -> (r: Self)
        ensures
            r.wf(),
            r@.version == "1.0"@,
            r@.created_at == now,
            r@.updated_at == now,
            r@.entries.len() == 0,
    {
        let r = WorkspaceRegistry {
            version: String::from_str("1.0"),
            created_at: now,
            updated_at: now,
            repositories: Vec::new(),
        };
        assert(r@.entries =~= Seq::empty());
        r
    }

    /// An empty registry created now.
    pub fn new() -> (r: Self)
        ensures
            r.wf(),
            r@.version == "1.0"@,
            r@.created_at == r@.updated_at,
            r@.entries.len() == 0,
    {
        Self::new_at(now_or_epoch())
    }

    /// Where the record named `name` stands.
    pub fn find_index(&self, name: &str) -> (r: Option<usize>)
        requires
            self.wf(),
        ensures
            r is None <==> !has_name(self@.entries, name@),
            r matches Some(k) ==> k < self@.entries.len() && self@.entries[k as int].0 == name@
                && k == position_of(self@.entries, name@),
    {
        let mut i: usize = 0;
        while i < self.repositories.len()
            invariant
                self.wf(),
                i <= self@.entries.len(),
                self@.entries.len() == self.repositories@.len(),
                forall|j: int| 0 <= j < i ==> self@.entries[j].0 != name@,
            decreases self.repositories.len() - i,
        {
            if str_eq(self.repositories[i].0.as_str(), name) {
                proof {
                    assert(self@.entries[i as int].0 == name@);
                    let k = position_of(self@.entries, name@);
                    assert(self@.entries[k].0 == name@);
                }
                return Some(i);
            }
            i += 1;
        }
        None
    }

    /// Whether some record's checkout is the directory `path` names.
    pub fn holds_directory(&self, path: &str) -> (r: bool)
        ensures
            r == holds_directory(self@.entries, path@),
    {
        let mut i: usize = 0;
        while i < self.repositories.len()
            invariant
                i <= self@.entries.len(),
                self@.entries.len() == self.repositories@.len(),
                forall|j: int| 0 <= j < i ==> !same_directory(self@.entries[j].1.path, path@),
            decreases self.repositories.len() - i,
        {
            if is_same_directory(self.repositories[i].1.path.as_str(), path) {
                assert(self@.entries[i as int].1.path == self.repositories@[i as int].1.path@);
                return true;
            }
            i += 1;
        }
        false
    }

    /// Adds the record `config` under `name` at `now`. Fails with
    /// `DuplicateName` when the name is taken, and otherwise with
    /// `PathCollision` when another record's checkout is the same directory;
    /// on failure nothing changes.
    pub fn add_repository_at(&mut self, name: String, config: RepositoryConfig, now: Timestamp) -> (r:
        Result<(), ProjectManError>)
        requires
            old(self).wf(),
        ensures
            final(self).wf(),
            has_name(old(self)@.entries, name@) ==> (r matches Err(ProjectManError::DuplicateName(n))
                && n@ == name@),
            !has_name(old(self)@.entries, name@) && holds_directory(old(self)@.entries, config@.path)
                ==> (r matches Err(ProjectManError::PathCollision(p)) && p@ == config@.path),
            !has_name(old(self)@.entries, name@) && !holds_directory(old(self)@.entries, config@.path)
                ==> r is Ok,
            r is Ok ==> final(self)@ == with_added(old(self)@, name@, config@, now),
            r is Err ==> final(self)@ == old(self)@,
    {
        if self.find_index(name.as_str()).is_some() {
            return Err(ProjectManError::DuplicateName(name));
        }
        if self.holds_directory(config.path.as_str()) {
            return Err(ProjectManError::PathCollision(config.path));
        }
        let ghost old_entries = self@.entries;
        self.repositories.push((name, config));
        self.updated_at = self.updated_at.later(now);
        proof {
            assert(self@.entries =~= old_entries.push((name@, config@)));
        }
        Ok(())
    }

    /// Adds the record `config` under `name` now; see `add_repository_at`.
    pub fn add_repository(&mut self, name: String, config: RepositoryConfig) -> (r: Result<
        (),
        ProjectManError,
    >)
        requires
            old(self).wf(),
        ensures
            final(self).wf(),
            has_name(old(self)@.entries, name@) ==> (r matches Err(ProjectManError::DuplicateName(n))
                && n@ == name@),
            !has_name(old(self)@.entries, name@) && holds_directory(old(self)@.entries, config@.path)
                ==> (r matches Err(ProjectManError::PathCollision(p)) && p@ == config@.path),
            !has_name(old(self)@.entries, name@) && !holds_directory(old(self)@.entries, config@.path)
                ==> r is Ok,
            r is Ok ==> exists|now: Timestamp|
                final(self)@ == with_added(old(self)@, name@, config@, now),
            r is Err ==> final(self)@ == old(self)@,
    {
        self.add_repository_at(name, config, now_or_epoch())
    }

    /// Removes the record named `name`, if there is one, and returns it; the
    /// update time advances to `now` only when something was removed.
    pub fn remove_repository_at(&mut self, name: &str, now: Timestamp) -> (r: Option<
        RepositoryConfig,
    >)
        requires
            old(self).wf(),
        ensures
            final(self).wf(),
            !has_name(old(self)@.entries, name@) ==> r is None && final(self)@ == old(self)@,
            has_name(old(self)@.entries, name@) ==> ({
                let k = position_of(old(self)@.entries, name@);
                &&& r matches Some(c) && c@ == old(self)@.entries[k].1
                &&& final(self)@ == RegistryView {
                    entries: old(self)@.entries.remove(k),
                    updated_at: old(self)@.updated_at.spec_later(now),
                    ..old(self)@
                }
            }),
    {
        match self.find_index(name) {
            None => None,
            Some(k) => {
                let ghost old_entries = self@.entries;
                let (_, config) = self.repositories.remove(k);
                self.updated_at = self.updated_at.later(now);
                proof {
                    assert(self@.entries =~= old_entries.remove(k as int));
                }
                Some(config)
            },
        }
    }

    /// Removes the record named `name`, if there is one, and returns it.
    pub fn remove_repository(&mut self, name: &str) -> (r: Option<RepositoryConfig>)
        requires
            old(self).wf(),
        ensures
            final(self).wf(),
            !has_name(old(self)@.entries, name@) ==> r is None && final(self)@ == old(self)@,
            has_name(old(self)@.entries, name@) ==> ({
                let k = position_of(old(self)@.entries, name@);
                &&& r matches Some(c) && c@ == old(self)@.entries[k].1
                &&& final(self)@.entries == old(self)@.entries.remove(k)
                &&& final(self)@.version == old(self)@.version
                &&& final(self)@.created_at == old(self)@.created_at
                &&& old(self)@.updated_at.spec_le(final(self)@.updated_at)
            }),
    {
        self.remove_repository_at(name, now_or_epoch())
    }

    /// The record named `name`.
    pub fn get_repository(&self, name: &str) -> (r: Option<&RepositoryConfig>)
        requires
            self.wf(),
        ensures
            r is None <==> !has_name(self@.entries, name@),
            r matches Some(c) ==> c@ == self@.entries[position_of(self@.entries, name@)].1,
    {
        match self.find_index(name) {
            None => None,
            Some(k) => Some(&self.repositories[k].1),
        }
    }

    /// Every record with its name, in registry order.
    pub fn list_repositories(&self) -> (r: Vec<(&String, &RepositoryConfig)>)
        ensures
            ref_views(r@) == self@.entries,
    {
        let mut out: Vec<(&String, &RepositoryConfig)> = Vec::new();
        let mut i: usize = 0;
        while i < self.repositories.len()
            invariant
                i <= self.repositories@.len(),
                out@.len() == i,
                forall|j: int|
                    0 <= j < i ==> out@[j].0@ == self.repositories@[j].0@ && out@[j].1@
                        == self.repositories@[j].1@,
            decreases self.repositories.len() - i,
        {
            let e = &self.repositories[i];
            out.push((&e.0, &e.1));
            i += 1;
        }
        assert(ref_views(out@) =~= entry_views(self.repositories@));
        out
    }

    /// The records whose name contains `pattern`, ignoring case, in registry
    /// order.
    pub fn find_repositories(&self, pattern: &str) -> (r: Vec<(&String, &RepositoryConfig)>)
        ensures
            ref_views(r@) == name_matches(self@.entries, pattern@),
    {
        let lowered = to_lowercase(pattern);
        let mut out: Vec<(&String, &RepositoryConfig)> = Vec::new();
        let mut i: usize = 0;
        while i < self.repositories.len()
            invariant
                i <= self.repositories@.len(),
                lowered@ == lower_of(pattern@),
                ref_views(out@) == name_matches(
                    entry_views(self.repositories@.subrange(0, i as int)),
                    pattern@,
                ),
            decreases self.repositories.len() - i,
        {
            let e = &self.repositories[i];
            let name_lowered = to_lowercase(e.0.as_str());
            let ghost before = ref_views(out@);
            if contains_str(name_lowered.as_str(), lowered.as_str()) {
                out.push((&e.0, &e.1));
            }
            proof {
                let s = entry_views(self.repositories@.subrange(0, i + 1));
                assert(s.drop_last() =~= entry_views(self.repositories@.subrange(0, i as int)));
                assert(ref_views(out@) =~= name_matches(s, pattern@));
            }
            i += 1;
        }
        assert(self.repositories@.subrange(0, i as int) =~= self.repositories@);
        out
    }

    /// Marks the record named `name` synchronized at `now`; fails with
    /// `RepositoryNotFound` when there is none, changing nothing.
    pub fn update_last_sync_at(&mut self, name: &str, now: Timestamp) -> (r: Result<
        (),
        ProjectManError,
    >)
        requires
            old(self).wf(),
        ensures
            final(self).wf(),
            !has_name(old(self)@.entries, name@) ==> (r matches Err(
                ProjectManError::RepositoryNotFound(n),
            ) && n@ == name@ && final(self)@ == old(self)@),
            has_name(old(self)@.entries, name@) ==> r is Ok && final(self)@ == with_synced(
                old(self)@,
                name@,
                now,
            ),
    {
        match self.find_index(name) {
            None => Err(ProjectManError::RepositoryNotFound(String::from_str(name))),
            Some(k) => {
                let ghost old_entries = self@.entries;
                let (n, mut config) = self.repositories.remove(k);
                config.last_sync = Some(now);
                self.repositories.insert(k, (n, config));
                self.updated_at = self.updated_at.later(now);
                proof {
                    assert(self@.entries =~= with_synced(old(self)@, name@, now).entries);
                    assert forall|i: int, j: int|
                        0 <= i < j < self@.entries.len() implies self@.entries[i].0
                        != self@.entries[j].0 by {
                        assert(self@.entries[i].0 == old_entries[i].0);
                        assert(self@.entries[j].0 == old_entries[j].0);
                    }
                }
                Ok(())
            },
        }
    }

    /// Marks the record named `name` synchronized now; see
    /// `update_last_sync_at`.
    pub fn update_last_sync(&mut self, name: &str) -> (r: Result<(), ProjectManError>)
        requires
            old(self).wf(),
        ensures
            final(self).wf(),
            !has_name(old(self)@.entries, name@) ==> (r matches Err(
                ProjectManError::RepositoryNotFound(n),
            ) && n@ == name@ && final(self)@ == old(self)@),
            has_name(old(self)@.entries, name@) ==> r is Ok && exists|now: Timestamp|
                final(self)@ == with_synced(old(self)@, name@, now),
    {
        self.update_last_sync_at(name, now_or_epoch())
    }

    /// The checkout directory of `repo_config` under the workspace root.
    pub fn get_full_path(&self, workspace_path: &str, repo_config: &RepositoryConfig) -> (r: String)
        ensures
            r@ == joined_path(workspace_path@, repo_config@.path),
    {
        join_path(workspace_path, repo_config.path.as_str())
    }

    /// Readies the registry to be written at `now`: fails with
    /// `WorkspaceNotFound` when the workspace directory is absent, and
    /// otherwise advances the update time. The caller writes the result.
    pub fn save_at(&mut self, workspace_exists: bool, now: Timestamp) -> (r: Result<
        (),
        ProjectManError,
    >)
        ensures
            !workspace_exists ==> (r matches Err(ProjectManError::WorkspaceNotFound)) && final(self)@
                == old(self)@,
            workspace_exists ==> r is Ok && final(self)@ == saved_view(old(self)@, now),
            final(self).wf() == old(self).wf(),
    {
        if !workspace_exists {
            return Err(ProjectManError::WorkspaceNotFound);
        }
        self.updated_at = self.updated_at.later(now);
        Ok(())
    }

    /// Readies the registry to be written now; see `save_at`.
    pub fn save(&mut self, workspace_exists: bool) -> (r: Result<(), ProjectManError>)
        ensures
            !workspace_exists ==> (r matches Err(ProjectManError::WorkspaceNotFound)) && final(self)@
                == old(self)@,
            workspace_exists ==> r is Ok && exists|now: Timestamp|
                final(self)@ == saved_view(old(self)@, now),
            final(self).wf() == old(self).wf(),
    {
        self.save_at(workspace_exists, now_or_epoch())
    }

    /// Whether no two records share a name.
    pub fn has_unique_names(&self) -> (r: bool)
        ensures
            r == self.wf(),
    {
        let n = self.repositories.len();
        let mut i: usize = 0;
        while i < n
            invariant
                n == self@.entries.len(),
                i <= n,
                forall|a: int, b: int| 0 <= a < b < n && a < i ==> self@.entries[a].0 != self@.entries[b].0,
            decreases n - i,
        {
            let mut j: usize = i + 1;
            while j < n
                invariant
                    n == self@.entries.len(),
                    i < n,
                    i + 1 <= j <= n,
                    forall|a: int, b: int| 0 <= a < b < n && a < i ==> self@.entries[a].0 != self@.entries[b].0,
                    forall|b: int| i < b < j ==> self@.entries[i as int].0 != self@.entries[b].0,
                decreases n - j,
            {
                if str_eq(self.repositories[i].0.as_str(), self.repositories[j].0.as_str()) {
                    assert(self@.entries[i as int].0 == self@.entries[j as int].0);
                    return false;
                }
                j += 1;
            }
            i += 1;
        }
        true
    }

    /// The registry as loaded: fails with `WorkspaceNotFound` when the
    /// workspace is absent, or when it holds no registry file and creation was
    /// not asked for (else an empty registry); with `Yaml` when the file could
    /// not be decoded or repeats a name. A decoded registry keeps only the
    /// records whose index is marked in `present` (their directory exists).
    pub fn load_from_workspace(stored: StoredRegistry, present: &Vec<bool>, create_if_missing: bool) -> (r:
        Result<WorkspaceRegistry, ProjectManError>)
        ensures
            r matches Ok(g) ==> g.wf(),
            stored is NoWorkspace ==> r matches Err(ProjectManError::WorkspaceNotFound),
            stored is Missing && !create_if_missing ==> r matches Err(
                ProjectManError::WorkspaceNotFound,
            ),
            stored is Missing && create_if_missing ==> (r matches Ok(g) && g@.version == "1.0"@
                && g@.entries.len() == 0 && g@.created_at == g@.updated_at),
            stored matches StoredRegistry::Corrupt(m) ==> (r matches Err(ProjectManError::Yaml(e))
                && e@ == m@),
            stored matches StoredRegistry::Found(reg) ==> (reg.wf() ==> (r matches Ok(g) && g@
                == loaded_view(reg@, present@))),
            stored matches StoredRegistry::Found(reg) ==> (!reg.wf() ==> r matches Err(
                ProjectManError::Yaml(_),
            )),
    {
        match stored {
            StoredRegistry::NoWorkspace => Err(ProjectManError::WorkspaceNotFound),
            StoredRegistry::Missing => {
                if create_if_missing {
                    Ok(WorkspaceRegistry::new())
                } else {
                    Err(ProjectManError::WorkspaceNotFound)
                }
            },
            StoredRegistry::Corrupt(m) => Err(ProjectManError::Yaml(m)),
            StoredRegistry::Found(reg) => {
                if !reg.has_unique_names() {
                    return Err(
                        ProjectManError::Yaml(String::from_str("a repository name occurs twice")),
                    );
                }
                let WorkspaceRegistry { version, created_at, updated_at, repositories } = reg;
                let ghost all = repositories@;
                let mut source = repositories;
                let total = source.len();
                let mut out: Vec<(String, RepositoryConfig)> = Vec::new();
                let mut idx: usize = 0;
                while source.len() > 0
                    invariant
                        idx <= all.len(),
                        all.len() == total,
                        source@ == all.subrange(idx as int, all.len() as int),
                        entry_views(out@) == kept(entry_views(all.subrange(0, idx as int)), present@),
                    decreases source.len(),
                {
                    let entry = source.remove(0);
                    let ghost before = entry_views(all.subrange(0, idx as int));
                    let keep = idx < present.len() && present[idx];
                    if keep {
                        out.push(entry);
                    }
                    idx += 1;
                    proof {
                        let now_seen = entry_views(all.subrange(0, idx as int));
                        assert(now_seen.drop_last() =~= before);
                        assert(entry_views(out@) =~= kept(now_seen, present@));
                        assert(source@ =~= all.subrange(idx as int, all.len() as int));
                    }
                }
                proof {
                    assert(all.subrange(0, idx as int) =~= all);
                    lemma_kept_unique(entry_views(all), present@);
                }
                Ok(WorkspaceRegistry { version, created_at, updated_at, repositories: out })
            },
        }
    }
}

} // verus!
