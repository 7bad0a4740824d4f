//! The reconciliation coordinator: folds what the probe found for each
//! repository, in order, into per-repository outcomes and a running summary,
//! and marks the registry records that were found current.

use vstd::prelude::*;
use crate::error::{ErrorView, ProjectManError};
use crate::git::{pull_result, CommandOutput, GitManager, SyncResult};
use crate::registry::{has_name, with_synced, RegistryView, WorkspaceRegistry};
use crate::time::{now_or_epoch, Timestamp};

verus! {

/// What was found for one repository before classifying it.
#[derive(Debug)]
pub enum ProbeReport {
    /// Its checkout directory does not exist.
    DirectoryMissing,
    /// The version-control tool could not be started; why.
    LaunchFailed(String),
    /// The fast-forward pull ran and printed this.
    Ran(CommandOutput),
}

/// How reconciling one repository ended.
#[derive(Debug, PartialEq, Eq)]
pub enum ReconciliationOutcome {
    UpToDate,
    Updated { count: usize },
    Conflict { ahead: usize, behind: usize },
    Failed { reason: String },
    /// Its directory is absent; it was skipped.
    Missing,
}

/// An outcome as plain values.
pub enum OutcomeView {
    UpToDate,
    Updated(usize),
    Conflict(usize, usize),
    Failed(Seq<char>),
    Missing,
}

impl View for ReconciliationOutcome {
    type V = OutcomeView;

    open spec fn view(&self) -> OutcomeView {
        match self {
            ReconciliationOutcome::UpToDate => OutcomeView::UpToDate,
            ReconciliationOutcome::Updated { count } => OutcomeView::Updated(*count),
            ReconciliationOutcome::Conflict { ahead, behind } => OutcomeView::Conflict(*ahead, *behind),
            ReconciliationOutcome::Failed { reason } => OutcomeView::Failed(reason@),
            ReconciliationOutcome::Missing => OutcomeView::Missing,
        }
    }
}

/// The outcome a probe report stands for.
pub open spec fn report_outcome(report: ProbeReport) -> OutcomeView {
    match report {
        ProbeReport::DirectoryMissing => OutcomeView::Missing,
        ProbeReport::LaunchFailed(m) => OutcomeView::Failed(m@),
        ProbeReport::Ran(o) => match pull_result(o.success, o.stdout@, o.stderr@) {
            Ok(SyncResult::UpToDate) => OutcomeView::UpToDate,
            Ok(SyncResult::Updated { commits_pulled }) => OutcomeView::Updated(commits_pulled),
            Ok(SyncResult::Conflict { ahead, behind }) => OutcomeView::Conflict(ahead, behind),
            Err(ErrorView::Git(m)) => OutcomeView::Failed(m),
            Err(_) => OutcomeView::Failed(Seq::empty()),
        },
    }
}

/// The remote matched, or its commits were integrated.
pub open spec fn is_success(o: OutcomeView) -> bool {
    o is UpToDate || o is Updated
}

/// The pull was refused or failed.
pub open spec fn is_failure(o: OutcomeView) -> bool {
    o is Conflict || o is Failed
}

/// How many outcomes are successes.
pub open spec fn count_successes(s: Seq<OutcomeView>) -> nat
    decreases s.len(),
{
    if s.len() == 0 {
        0
    } else {
        count_successes(s.drop_last()) + if is_success(s.last()) { 1nat } else { 0nat }
    }
}

/// How many outcomes are failures.
pub open spec fn count_failures(s: Seq<OutcomeView>) -> nat
    decreases s.len(),
{
    if s.len() == 0 {
        0
    } else {
        count_failures(s.drop_last()) + if is_failure(s.last()) { 1nat } else { 0nat }
    }
}

/// How many repositories were missing.
pub open spec fn count_missing(s: Seq<OutcomeView>) -> nat
    decreases s.len(),
{
    if s.len() == 0 {
        0
    } else {
        count_missing(s.drop_last()) + if s.last() is Missing { 1nat } else { 0nat }
    }
}

/// The outcomes of a batch of reports, in order.
pub open spec fn batch_outcomes(reports: Seq<(String, ProbeReport)>) -> Seq<OutcomeView> {
    reports.map_values(|e: (String, ProbeReport)| report_outcome(e.1))
}

/// The views of a sequence of outcomes.
pub open spec fn outcome_views(v: Seq<ReconciliationOutcome>) -> Seq<OutcomeView> {
    v.map_values(|o: ReconciliationOutcome| o@)
}

/// The registry after one repository's report at `now`: its record, if it
/// has one, is marked synchronized when the report is a success.
pub open spec fn after_report(
    r: RegistryView,
    name: Seq<char>,
    report: ProbeReport,
    now: Timestamp,
) -> RegistryView {
    if is_success(report_outcome(report)) && has_name(r.entries, name) {
        with_synced(r, name, now)
    } else {
        r
    }
}

/// The registry after a batch of reports at `now`, taken in order.
pub open spec fn after_batch(r: RegistryView, reports: Seq<(String, ProbeReport)>, now: Timestamp) -> RegistryView
    decreases reports.len(),
{
    if reports.len() == 0 {
        r
    } else {
        after_report(
            after_batch(r, reports.drop_last(), now),
            reports.last().0@,
            reports.last().1,
            now,
        )
    }
}

/// A batch without a success leaves the registry as it was, so there is
/// nothing to write back.
pub proof fn lemma_batch_without_success(r: RegistryView, reports: Seq<(String, ProbeReport)>, now: Timestamp)
    requires
        count_successes(batch_outcomes(reports)) == 0,
    ensures
        after_batch(r, reports, now) == r,
    decreases reports.len(),
{
    if reports.len() > 0 {
        assert(batch_outcomes(reports.drop_last()) =~= batch_outcomes(reports).drop_last());
        lemma_batch_without_success(r, reports.drop_last(), now);
    }
}

/// The running totals of a reconciliation.
#[derive(Clone, Copy, Debug, PartialEq, Eq, Structural)]
pub struct ReconciliationSummary {
    pub successes: usize,
    pub failures: usize,
    /// Skipped for a missing directory; not a failure.
    pub missing: usize,
}

/// Drives the outcome of each repository into the summary and the registry.
#[derive(Debug)]
pub struct ReconciliationCoordinator {
    pub summary: ReconciliationSummary,
}

/// What the pull's output means for the repository.
pub fn sync_outcome(git: &GitManager, report: ProbeReport) -> (r: ReconciliationOutcome)
    ensures
        r@ == report_outcome(report),
{
    match report {
        ProbeReport::DirectoryMissing => ReconciliationOutcome::Missing,
        ProbeReport::LaunchFailed(reason) => ReconciliationOutcome::Failed { reason },
        ProbeReport::Ran(o) => match git.sync_repository(&o) {
            Ok(SyncResult::UpToDate) => ReconciliationOutcome::UpToDate,
            Ok(SyncResult::Updated { commits_pulled }) => ReconciliationOutcome::Updated {
                count: commits_pulled,
            },
            Ok(SyncResult::Conflict { ahead, behind }) => ReconciliationOutcome::Conflict {
                ahead,
                behind,
            },
            Err(ProjectManError::Git(reason)) => ReconciliationOutcome::Failed { reason },
            Err(_) => ReconciliationOutcome::Failed { reason: String::new() },
        },
    }
}

impl ReconciliationCoordinator {
    /// Nothing reconciled yet.
    pub fn new() -> (r: Self)
        ensures
            r.summary == (ReconciliationSummary { successes: 0, failures: 0, missing: 0 }),
    {
        ReconciliationCoordinator { summary: ReconciliationSummary { successes: 0, failures: 0, missing: 0 } }
    }

    /// The totals so far, added up.
    pub open spec fn total(&self) -> int {
        self.summary.successes + self.summary.failures + self.summary.missing
    }

    /// Takes in what was found for the repository `name` at `now`: a success
    /// marks its record synchronized, a conflict or failure leaves the record
    /// alone and counts as a failure, and a missing directory is counted
    /// apart, not as a failure.
    pub fn record_at(
        &mut self,
        git: &GitManager,
        registry: &mut WorkspaceRegistry,
        name: &str,
        report: ProbeReport,
        now: Timestamp,
    ) -> (r: ReconciliationOutcome)
        requires
            old(registry).wf(),
            old(self).total() < usize::MAX,
        ensures
            final(registry).wf(),
            r@ == report_outcome(report),
            final(self).summary.successes == old(self).summary.successes + if is_success(r@) {
                1int
            } else {
                0int
            },
            final(self).summary.failures == old(self).summary.failures + if is_failure(r@) {
                1int
            } else {
                0int
            },
            final(self).summary.missing == old(self).summary.missing + if r@ is Missing {
                1int
            } else {
                0int
            },
            final(self).total() == old(self).total() + 1,
            is_success(r@) && has_name(old(registry)@.entries, name@) ==> final(registry)@
                == with_synced(old(registry)@, name@, now),
            !(is_success(r@) && has_name(old(registry)@.entries, name@)) ==> final(registry)@
                == old(registry)@,
    {
        let outcome = sync_outcome(git, report);
        match &outcome {
            ReconciliationOutcome::UpToDate | ReconciliationOutcome::Updated { .. } => {
                self.summary.successes = self.summary.successes + 1;
                let _ = registry.update_last_sync_at(name, now);
            },
            ReconciliationOutcome::Conflict { .. } | ReconciliationOutcome::Failed { .. } => {
                self.summary.failures = self.summary.failures + 1;
            },
            ReconciliationOutcome::Missing => {
                self.summary.missing = self.summary.missing + 1;
            },
        }
        outcome
    }

    /// Takes in what was found for the repository `name` now; see
    /// `record_at`.
    pub fn record(
        &mut self,
        git: &GitManager,
        registry: &mut WorkspaceRegistry,
        name: &str,
        report: ProbeReport,
    ) -> (r: ReconciliationOutcome)
        requires
            old(registry).wf(),
            old(self).total() < usize::MAX,
        ensures
            final(registry).wf(),
            r@ == report_outcome(report),
            final(self).summary.successes == old(self).summary.successes + if is_success(r@) {
                1int
            } else {
                0int
            },
            final(self).summary.failures == old(self).summary.failures + if is_failure(r@) {
                1int
            } else {
                0int
            },
            final(self).summary.missing == old(self).summary.missing + if r@ is Missing {
                1int
            } else {
                0int
            },
            final(self).total() == old(self).total() + 1,
            is_success(r@) && has_name(old(registry)@.entries, name@) ==> exists|now: Timestamp|
                final(registry)@ == with_synced(old(registry)@, name@, now),
            !(is_success(r@) && has_name(old(registry)@.entries, name@)) ==> final(registry)@
                == old(registry)@,
    {
        self.record_at(git, registry, name, report, now_or_epoch())
    }

    /// Reconciles a batch in order at `now`: every repository is taken in,
    /// whatever happened to the ones before it. The summary counts the
    /// successes, the failures and, apart, the missing directories.
    pub fn run_at(
        git: &GitManager,
        registry: &mut WorkspaceRegistry,
        reports: Vec<(String, ProbeReport)>,
        now: Timestamp,
    ) -> (r: (ReconciliationSummary, Vec<ReconciliationOutcome>))
        requires
            old(registry).wf(),
        ensures
            final(registry).wf(),
            final(registry)@ == after_batch(old(registry)@, reports@, now),
            outcome_views(r.1@) == batch_outcomes(reports@),
            r.0.successes == count_successes(batch_outcomes(reports@)),
            r.0.failures == count_failures(batch_outcomes(reports@)),
            r.0.missing == count_missing(batch_outcomes(reports@)),
    {
        let ghost all = reports@;
        let mut coordinator = ReconciliationCoordinator::new();
        let mut outcomes: Vec<ReconciliationOutcome> = Vec::new();
        let mut source = reports;
        let total = source.len();
        let mut i: usize = 0;
        while source.len() > 0
            invariant
                registry.wf(),
                registry@ == after_batch(old(registry)@, all.subrange(0, i as int), now),
                total == all.len(),
                i <= all.len(),
                source@ == all.subrange(i as int, all.len() as int),
                outcome_views(outcomes@) == batch_outcomes(all.subrange(0, i as int)),
                coordinator.summary.successes == count_successes(batch_outcomes(all.subrange(0, i as int))),
                coordinator.summary.failures == count_failures(batch_outcomes(all.subrange(0, i as int))),
                coordinator.summary.missing == count_missing(batch_outcomes(all.subrange(0, i as int))),
                coordinator.total() == i,
            decreases source.len(),
        {
            let ghost entry = source@[0];
            assert(entry == all[i as int]);
            let (name, report) = source.remove(0);
            let ghost before = batch_outcomes(all.subrange(0, i as int));
            let outcome = coordinator.record_at(git, registry, name.as_str(), report, now);
            let ghost ov = outcome@;
            let ghost earlier = outcomes@;
            assert(ov == report_outcome(entry.1));
            outcomes.push(outcome);
            assert(outcome_views(outcomes@) =~= outcome_views(earlier).push(ov));
            i += 1;
            proof {
                let seen = batch_outcomes(all.subrange(0, i as int));
                assert(seen.drop_last() =~= before);
                assert(all.subrange(0, i as int).drop_last() =~= all.subrange(0, i - 1));
                assert(seen.last() == report_outcome(entry.1));
                assert(outcome_views(outcomes@) =~= seen);
                assert(source@ =~= all.subrange(i as int, all.len() as int));
            }
        }
        proof {
            assert(all.subrange(0, i as int) =~= all);
        }
        (coordinator.summary, outcomes)
    }
}

} // verus!
