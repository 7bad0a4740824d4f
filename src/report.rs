//! How the state of each checkout is described in listings, and the
//! workspace-wide tally of those states.

use vstd::prelude::*;
use crate::git::RepoStatus;
use crate::text::{decimal_digits, decimal_text};

verus! {

/// What probing a checkout's state found.
#[derive(Debug)]
pub enum StatusProbe {
    /// The checkout directory does not exist.
    Missing,
    /// The version-control tool could not report on it.
    Failed,
    Found(RepoStatus),
}

/// The parts of a status description: dirty, ahead, behind, as they apply.
pub open spec fn status_parts(s: RepoStatus) -> Seq<Seq<char>> {
    (if !s.is_clean { seq!["dirty"@] } else { Seq::empty() }) + (if s.ahead > 0 {
        seq!["ahead "@ + decimal_digits(s.ahead as nat)]
    } else {
        Seq::empty()
    }) + (if s.behind > 0 {
        seq!["behind "@ + decimal_digits(s.behind as nat)]
    } else {
        Seq::empty()
    })
}

/// The parts joined with `, ` between them.
pub open spec fn joined(parts: Seq<Seq<char>>) -> Seq<char>
    decreases parts.len(),
{
    if parts.len() == 0 {
        Seq::empty()
    } else if parts.len() == 1 {
        parts[0]
    } else {
        joined(parts.drop_last()) + ", "@ + parts.last()
    }
}

/// How a probe's finding reads in a listing.
pub open spec fn status_label(p: StatusProbe) -> Seq<char> {
    match p {
        StatusProbe::Missing => "missing"@,
        StatusProbe::Failed => "unknown"@,
        StatusProbe::Found(s) => if status_parts(s).len() == 0 {
            "clean"@
        } else {
            joined(status_parts(s))
        },
    }
}

fn push_part(out: &mut String, first: bool, part: &str)
    ensures
        final(out)@ == if first { old(out)@ + part@ } else { old(out)@ + ", "@ + part@ },
{
    if !first {
        out.append(", ");
    }
    out.append(part);
}

fn count_text(prefix: &str, n: usize) -> (r: String)
    ensures
        r@ == prefix@ + decimal_digits(n as nat),
{
    let mut s = String::from_str(prefix);
    let d = decimal_text(n as u64);
    s.append(d.as_str());
    s
}

/// How a probe's finding reads in a listing: `missing`, `unknown`, `clean`,
/// or the parts that apply among `dirty`, `ahead N` and `behind N`.
pub fn describe_status(p: &StatusProbe) -> (r: String)
    ensures
        r@ == status_label(*p),
{
    match p {
        StatusProbe::Missing => String::from_str("missing"),
        StatusProbe::Failed => String::from_str("unknown"),
        StatusProbe::Found(s) => {
            let ghost parts = status_parts(*s);
            let mut out = String::new();
            let mut first = true;
            let ghost mut done: Seq<Seq<char>> = Seq::empty();
            if !s.is_clean {
                push_part(&mut out, first, "dirty");
                first = false;
                proof {
                    done = done.push("dirty"@);
                }
            }
            assert(out@ == joined(done) && first == (done.len() == 0));
            if s.ahead > 0 {
                let t = count_text("ahead ", s.ahead);
                proof {
                    assert(done.push(t@).drop_last() =~= done);
                }
                push_part(&mut out, first, t.as_str());
                first = false;
                proof {
                    done = done.push(t@);
                }
            }
            assert(out@ == joined(done) && first == (done.len() == 0));
            if s.behind > 0 {
                let t = count_text("behind ", s.behind);
                proof {
                    assert(done.push(t@).drop_last() =~= done);
                }
                push_part(&mut out, first, t.as_str());
                first = false;
                proof {
                    done = done.push(t@);
                }
            }
            assert(done =~= parts);
            if first {
                String::from_str("clean")
            } else {
                out
            }
        },
    }
}

/// Workspace-wide counts of checkout states.
#[derive(Clone, Copy, Debug, PartialEq, Eq, Structural)]
pub struct StatusTally {
    pub clean: usize,
    pub dirty: usize,
    pub ahead: usize,
    pub behind: usize,
    pub missing: usize,
    pub errors: usize,
}

/// The tally of a sequence of findings.
pub open spec fn tally_of(s: Seq<StatusProbe>) -> StatusTally
    decreases s.len(),
{
    if s.len() == 0 {
        StatusTally { clean: 0, dirty: 0, ahead: 0, behind: 0, missing: 0, errors: 0 }
    } else {
        let t = tally_of(s.drop_last());
        match s.last() {
            StatusProbe::Missing => StatusTally { missing: (t.missing + 1) as usize, ..t },
            StatusProbe::Failed => StatusTally { errors: (t.errors + 1) as usize, ..t },
            StatusProbe::Found(st) => StatusTally {
                clean: (t.clean + if st.is_clean { 1int } else { 0int }) as usize,
                dirty: (t.dirty + if st.is_clean { 0int } else { 1int }) as usize,
                ahead: (t.ahead + if st.ahead > 0 { 1int } else { 0int }) as usize,
                behind: (t.behind + if st.behind > 0 { 1int } else { 0int }) as usize,
                ..t
            },
        }
    }
}

proof fn lemma_tally_bounded(s: Seq<StatusProbe>)
    requires
        s.len() <= usize::MAX,
    ensures
        tally_of(s).clean + tally_of(s).dirty + tally_of(s).missing + tally_of(s).errors == s.len(),
        tally_of(s).ahead <= s.len(),
        tally_of(s).behind <= s.len(),
    decreases s.len(),
{
    if s.len() > 0 {
        lemma_tally_bounded(s.drop_last());
    }
}

/// Counts the checkouts that are clean or dirty, ahead or behind their
/// upstream, missing, or could not be probed.
pub fn tally_statuses(probes: &Vec<StatusProbe>) -> (r: StatusTally)
    ensures
        r == tally_of(probes@),
{
    let mut t = StatusTally { clean: 0, dirty: 0, ahead: 0, behind: 0, missing: 0, errors: 0 };
    let mut i: usize = 0;
    while i < probes.len()
        invariant
            i <= probes@.len(),
            t == tally_of(probes@.subrange(0, i as int)),
        decreases probes.len() - i,
    {
        let ghost prefix = probes@.subrange(0, i + 1);
        proof {
            assert(prefix.drop_last() =~= probes@.subrange(0, i as int));
            lemma_tally_bounded(prefix.drop_last());
        }
        match &probes[i] {
            StatusProbe::Missing => {
                t.missing = t.missing + 1;
            },
            StatusProbe::Failed => {
                t.errors = t.errors + 1;
            },
            StatusProbe::Found(st) => {
                if st.is_clean {
                    t.clean = t.clean + 1;
                } else {
                    t.dirty = t.dirty + 1;
                }
                if st.ahead > 0 {
                    t.ahead = t.ahead + 1;
                }
                if st.behind > 0 {
                    t.behind = t.behind + 1;
                }
            },
        }
        i += 1;
    }
    assert(probes@.subrange(0, i as int) =~= probes@);
    t
}

} // verus!
