//! The fuzzy resolver: scores repository names against a query, keeps those
//! that match, and ranks them: a name equal to the query first, then by
//! descending score, ties in input order.

use vstd::prelude::*;
use vstd::seq_lib::{to_multiset_build, to_multiset_insert};
use fuzzy_matcher::skim::SkimMatcherV2;
use fuzzy_matcher::FuzzyMatcher;
use crate::registry::{entry_views, RecordView, RepositoryConfig};
use crate::text::str_eq;

verus! {

/// `a` and `b` count as the same character: equal, or, when case is
/// ignored, the same ASCII letter in either case.
pub open spec fn chars_agree(a: char, b: char, case_sensitive: bool) -> bool {
    a == b || (!case_sensitive && (('A' <= a && a <= 'Z' && (b as u32) == (a as u32) + 32) || (
    'A' <= b && b <= 'Z' && (a as u32) == (b as u32) + 32)))
}

/// The characters of `pattern` appear in `choice` in order, not
/// necessarily next to each other.
pub open spec fn is_subsequence(pattern: Seq<char>, choice: Seq<char>, case_sensitive: bool) -> bool {
    exists|idx: Seq<int>|
        idx.len() == pattern.len() && (forall|i: int|
            0 <= i < idx.len() ==> 0 <= #[trigger] idx[i] < choice.len() && chars_agree(
                choice[idx[i]],
                pattern[i],
                case_sensitive,
            )) && (forall|i: int, j: int| 0 <= i < j < idx.len() ==> idx[i] < idx[j])
}

/// Names the score the skim matcher gives `choice` for `pattern`, ignoring
/// ASCII case.
pub uninterp spec fn skim_score_ignoring_case(choice: Seq<char>, pattern: Seq<char>) -> int;

/// Names the score the skim matcher gives `choice` for `pattern`, with case
/// respected.
pub uninterp spec fn skim_score_respecting_case(choice: Seq<char>, pattern: Seq<char>) -> int;

/// The score of `choice` for `pattern` under the chosen case handling.
pub open spec fn match_score(choice: Seq<char>, pattern: Seq<char>, case_sensitive: bool) -> int {
    if case_sensitive {
        skim_score_respecting_case(choice, pattern)
    } else {
        skim_score_ignoring_case(choice, pattern)
    }
}

/// Relies on `SkimMatcherV2::fuzzy_match` of fuzzy-matcher, built with
/// `ignore_case`: its first step (`cheap_matches`) gives up exactly when the
/// pattern is not a subsequence of the choice under ASCII case folding, after
/// which a score always comes back; an empty pattern scores 0.
#[verifier::external_body]
fn skim_match_ignoring_case(choice: &str, pattern: &str) -> (r: Option<i64>)
    ensures
        r is Some <==> is_subsequence(pattern@, choice@, false),
        r matches Some(s) ==> s == skim_score_ignoring_case(choice@, pattern@),
        pattern@.len() == 0 ==> r == Some(0i64),
{
    SkimMatcherV2::default().ignore_case().fuzzy_match(choice, pattern)
}

/// Relies on `SkimMatcherV2::fuzzy_match` of fuzzy-matcher, built with
/// `respect_case`: as above, with characters compared exactly.
#[verifier::external_body]
fn skim_match_respecting_case(choice: &str, pattern: &str) -> (r: Option<i64>)
    ensures
        r is Some <==> is_subsequence(pattern@, choice@, true),
        r matches Some(s) ==> s == skim_score_respecting_case(choice@, pattern@),
        pattern@.len() == 0 ==> r == Some(0i64),
{
    SkimMatcherV2::default().respect_case().fuzzy_match(choice, pattern)
}

/// A repository that matched a query, with its score (higher is better).
#[derive(Debug)]
pub struct SearchResult {
    pub name: String,
    pub repo_config: RepositoryConfig,
    pub score: i64,
}

/// A candidate as plain values.
pub struct CandidateView {
    pub name: Seq<char>,
    pub record: RecordView,
    pub score: int,
}

impl View for SearchResult {
    type V = CandidateView;

    open spec fn view(&self) -> CandidateView {
        CandidateView { name: self.name@, record: self.repo_config@, score: self.score as int }
    }
}

impl Clone for SearchResult {
    fn clone(&self) -> (r: Self)
        ensures
            r@ == self@,
    {
        SearchResult { name: self.name.clone(), repo_config: self.repo_config.clone(), score: self.score }
    }
}

/// The views of a sequence of candidates.
pub open spec fn candidate_views(v: Seq<SearchResult>) -> Seq<CandidateView> {
    v.map_values(|c: SearchResult| c@)
}

/// The entries that match `pattern`, each with its score, in input order.
pub open spec fn hits(
    e: Seq<(Seq<char>, RecordView)>,
    pattern: Seq<char>,
    case_sensitive: bool,
) -> Seq<CandidateView>
    decreases e.len(),
{
    if e.len() == 0 {
        Seq::empty()
    } else {
        let rest = hits(e.drop_last(), pattern, case_sensitive);
        let (name, record) = e.last();
        if is_subsequence(pattern, name, case_sensitive) {
            rest.push(CandidateView { name, record, score: match_score(name, pattern, case_sensitive) })
        } else {
            rest
        }
    }
}

/// `a` ranks at least as high as `b` for the query `q`: a name equal to the
/// query comes first, then the higher score.
pub open spec fn ranks_at_least(a: CandidateView, b: CandidateView, q: Seq<char>) -> bool {
    (a.name == q && b.name != q) || ((a.name == q) == (b.name == q) && a.score >= b.score)
}

/// How many leading candidates rank at least as high as `c`.
pub open spec fn leading_at_least(s: Seq<CandidateView>, c: CandidateView, q: Seq<char>) -> nat
    decreases s.len(),
{
    if s.len() == 0 {
        0
    } else if ranks_at_least(s[0], c, q) {
        1 + leading_at_least(s.drop_first(), c, q)
    } else {
        0
    }
}

/// `c` placed after every leading candidate that ranks at least as high.
pub open spec fn insert_ranked(s: Seq<CandidateView>, c: CandidateView, q: Seq<char>) -> Seq<
    CandidateView,
> {
    s.insert(leading_at_least(s, c, q) as int, c)
}

/// The candidates ranked for the query `q`: names equal to the query first,
/// then by descending score, equal ranks in input order.
pub open spec fn ranked(s: Seq<CandidateView>, q: Seq<char>) -> Seq<CandidateView>
    decreases s.len(),
{
    if s.len() == 0 {
        s
    } else {
        insert_ranked(ranked(s.drop_last(), q), s.last(), q)
    }
}

/// Rank never rises along the sequence.
pub open spec fn descending(s: Seq<CandidateView>, q: Seq<char>) -> bool {
    forall|i: int, j: int| 0 <= i < j < s.len() ==> ranks_at_least(s[i], s[j], q)
}

proof fn lemma_leading_at_least(s: Seq<CandidateView>, c: CandidateView, q: Seq<char>)
    ensures
        leading_at_least(s, c, q) <= s.len(),
        forall|j: int| 0 <= j < leading_at_least(s, c, q) ==> ranks_at_least(s[j], c, q),
        leading_at_least(s, c, q) < s.len() ==> !ranks_at_least(
            s[leading_at_least(s, c, q) as int],
            c,
            q,
        ),
    decreases s.len(),
{
    if s.len() > 0 && ranks_at_least(s[0], c, q) {
        lemma_leading_at_least(s.drop_first(), c, q);
        assert forall|j: int| 0 <= j < leading_at_least(s, c, q) implies ranks_at_least(s[j], c, q) by {
            if j > 0 {
                assert(s[j] == s.drop_first()[j - 1]);
            }
        }
    }
}

/// A ranking is descending by rank.
pub proof fn lemma_ranked_descending(s: Seq<CandidateView>, q: Seq<char>)
    ensures
        descending(ranked(s, q), q),
        ranked(s, q).len() == s.len(),
    decreases s.len(),
{
    if s.len() > 0 {
        let r = ranked(s.drop_last(), q);
        lemma_ranked_descending(s.drop_last(), q);
        let c = s.last();
        let p = leading_at_least(r, c, q) as int;
        lemma_leading_at_least(r, c, q);
        let t = r.insert(p, c);
        assert forall|i: int, j: int| 0 <= i < j < t.len() implies ranks_at_least(t[i], t[j], q) by {
            if j < p {
                assert(t[i] == r[i] && t[j] == r[j]);
            } else if j == p {
                assert(t[i] == r[i]);
            } else if i < p {
                assert(t[i] == r[i] && t[j] == r[j - 1]);
            } else if i == p {
                assert(t[j] == r[j - 1]);
                assert(!ranks_at_least(r[p], c, q));
                if j - 1 > p {
                    assert(ranks_at_least(r[p], r[j - 1], q));
                }
            } else {
                assert(t[i] == r[i - 1] && t[j] == r[j - 1]);
            }
        }
    }
}

/// Every ranked candidate was among the candidates.
pub proof fn lemma_ranked_within(s: Seq<CandidateView>, q: Seq<char>, x: CandidateView)
    requires
        ranked(s, q).contains(x),
    ensures
        s.contains(x),
    decreases s.len(),
{
    if s.len() > 0 {
        let d = s.drop_last();
        let r = ranked(d, q);
        lemma_ranked_descending(d, q);
        let p = leading_at_least(r, s.last(), q) as int;
        lemma_leading_at_least(r, s.last(), q);
        let t = r.insert(p, s.last());
        let i = choose|i: int| 0 <= i < t.len() && t[i] == x;
        if i < p {
            assert(r[i] == x);
            lemma_ranked_within(d, q, x);
            let k = choose|k: int| 0 <= k < d.len() && d[k] == x;
            assert(s[k] == x);
        } else if i == p {
            assert(s[s.len() - 1] == x);
        } else {
            assert(r[i - 1] == x);
            lemma_ranked_within(d, q, x);
            let k = choose|k: int| 0 <= k < d.len() && d[k] == x;
            assert(s[k] == x);
        }
    }
}

/// A ranking holds exactly the candidates it ranks, each as often.
pub proof fn lemma_ranked_permutes(s: Seq<CandidateView>, q: Seq<char>)
    ensures
        ranked(s, q).to_multiset() == s.to_multiset(),
    decreases s.len(),
{
    if s.len() > 0 {
        let d = s.drop_last();
        lemma_ranked_permutes(d, q);
        lemma_ranked_descending(d, q);
        let r = ranked(d, q);
        lemma_leading_at_least(r, s.last(), q);
        to_multiset_insert(r, leading_at_least(r, s.last(), q) as int, s.last());
        to_multiset_build(d, s.last());
        assert(d.push(s.last()) =~= s);
    }
}

/// `a` and `b` have the same rank for the query `q`.
pub open spec fn same_rank(a: CandidateView, b: CandidateView, q: Seq<char>) -> bool {
    (a.name == q) == (b.name == q) && a.score == b.score
}

/// The candidates with the same rank as `k`, in order.
pub open spec fn with_rank(s: Seq<CandidateView>, k: CandidateView, q: Seq<char>) -> Seq<
    CandidateView,
>
    decreases s.len(),
{
    if s.len() == 0 {
        s
    } else if same_rank(s.last(), k, q) {
        with_rank(s.drop_last(), k, q).push(s.last())
    } else {
        with_rank(s.drop_last(), k, q)
    }
}

proof fn lemma_with_rank_concat(a: Seq<CandidateView>, b: Seq<CandidateView>, k: CandidateView, q: Seq<char>)
    ensures
        with_rank(a + b, k, q) == with_rank(a, k, q) + with_rank(b, k, q),
    decreases b.len(),
{
    if b.len() == 0 {
        assert(a + b =~= a);
        assert(with_rank(a, k, q) + with_rank(b, k, q) =~= with_rank(a, k, q));
    } else {
        lemma_with_rank_concat(a, b.drop_last(), k, q);
        assert((a + b).drop_last() =~= a + b.drop_last());
        assert((a + b).last() == b.last());
        if same_rank(b.last(), k, q) {
            assert(with_rank(a, k, q) + with_rank(b, k, q) =~= (with_rank(a, k, q) + with_rank(
                b.drop_last(),
                k,
                q,
            )).push(b.last()));
        }
    }
}

proof fn lemma_with_rank_none(b: Seq<CandidateView>, k: CandidateView, q: Seq<char>)
    requires
        forall|i: int| 0 <= i < b.len() ==> !same_rank(b[i], k, q),
    ensures
        with_rank(b, k, q) == Seq::<CandidateView>::empty(),
    decreases b.len(),
{
    if b.len() > 0 {
        lemma_with_rank_none(b.drop_last(), k, q);
    }
}

/// A ranking is stable: the candidates of any one rank come out in the
/// order they went in.
pub proof fn lemma_ranked_stable(s: Seq<CandidateView>, q: Seq<char>, k: CandidateView)
    ensures
        with_rank(ranked(s, q), k, q) == with_rank(s, k, q),
    decreases s.len(),
{
    if s.len() > 0 {
        let d = s.drop_last();
        let x = s.last();
        lemma_ranked_stable(d, q, k);
        lemma_ranked_descending(d, q);
        let r = ranked(d, q);
        let p = leading_at_least(r, x, q) as int;
        lemma_leading_at_least(r, x, q);
        let front = r.subrange(0, p);
        let back = r.subrange(p, r.len() as int);
        assert(r =~= front + back);
        assert(r.insert(p, x) =~= front + (seq![x] + back));
        lemma_with_rank_concat(front, seq![x] + back, k, q);
        lemma_with_rank_concat(seq![x], back, k, q);
        lemma_with_rank_concat(front, back, k, q);
        assert(seq![x].drop_last() =~= Seq::<CandidateView>::empty());
        assert(with_rank(Seq::<CandidateView>::empty(), k, q) =~= Seq::<CandidateView>::empty());
        assert(ranked(s, q) == r.insert(p, x));
        if same_rank(x, k, q) {
            assert(with_rank(seq![x], k, q) =~= seq![x]);
            assert forall|i: int| 0 <= i < back.len() implies !same_rank(back[i], k, q) by {
                assert(back[i] == r[p + i]);
                assert(!ranks_at_least(r[p], x, q));
                if i > 0 {
                    assert(ranks_at_least(r[p], r[p + i], q));
                }
            }
            lemma_with_rank_none(back, k, q);
            assert(with_rank(ranked(s, q), k, q) =~= with_rank(front, k, q).push(x));
            assert(with_rank(r, k, q) =~= with_rank(front, k, q));
        } else {
            assert(with_rank(seq![x], k, q) =~= Seq::<CandidateView>::empty());
            assert(with_rank(ranked(s, q), k, q) =~= with_rank(front, k, q) + with_rank(back, k, q));
        }
    }
}

/// In a ranking, a candidate named exactly as the query stands before every
/// candidate named otherwise.
pub proof fn lemma_exact_name_first(s: Seq<CandidateView>, q: Seq<char>, i: int, j: int)
    requires
        0 <= i < ranked(s, q).len(),
        0 <= j < ranked(s, q).len(),
        ranked(s, q)[i].name == q,
        ranked(s, q)[j].name != q,
    ensures
        i < j,
{
    lemma_ranked_descending(s, q);
    if j < i {
        assert(ranks_at_least(ranked(s, q)[j], ranked(s, q)[i], q));
    }
}

/// Every candidate found matches the pattern as a subsequence.
pub proof fn lemma_hits_match(
    e: Seq<(Seq<char>, RecordView)>,
    pattern: Seq<char>,
    case_sensitive: bool,
    x: CandidateView,
)
    requires
        hits(e, pattern, case_sensitive).contains(x),
    ensures
        is_subsequence(pattern, x.name, case_sensitive),
    decreases e.len(),
{
    if e.len() > 0 {
        let rest = hits(e.drop_last(), pattern, case_sensitive);
        let h = hits(e, pattern, case_sensitive);
        let i = choose|i: int| 0 <= i < h.len() && h[i] == x;
        if i < rest.len() {
            assert(rest[i] == x);
            lemma_hits_match(e.drop_last(), pattern, case_sensitive, x);
        }
    }
}

/// Matches repository names against queries.
#[derive(Debug)]
pub struct FuzzySearch {
    /// Letters must agree in case to match.
    pub case_sensitive: bool,
}

impl FuzzySearch {
    /// A resolver that ignores ASCII case.
    pub fn new() -> (r: Self)
        ensures
            !r.case_sensitive,
    {
        FuzzySearch { case_sensitive: false }
    }

    /// A resolver that ignores ASCII case unless `case_sensitive`.
    pub fn with_case_sensitivity(case_sensitive: bool) -> (r: Self)
        ensures
            r.case_sensitive == case_sensitive,
    {
        FuzzySearch { case_sensitive }
    }

    fn score(&self, choice: &str, pattern: &str) -> (r: Option<i64>)
        ensures
            r is Some <==> is_subsequence(pattern@, choice@, self.case_sensitive),
            r matches Some(s) ==> s == match_score(choice@, pattern@, self.case_sensitive),
    {
        if self.case_sensitive {
            skim_match_respecting_case(choice, pattern)
        } else {
            skim_match_ignoring_case(choice, pattern)
        }
    }

    /// The repositories whose name matches `pattern`, ranked with a name
    /// equal to the pattern first and then by descending score; equal ranks
    /// keep their input order, and names that do not match are left out.
    pub fn search(&self, repositories: &[(String, RepositoryConfig)], pattern: &str) -> (r: Vec<
        SearchResult,
    >)
        ensures
            candidate_views(r@) == ranked(
                hits(entry_views(repositories@), pattern@, self.case_sensitive),
                pattern@,
            ),
            repositories@.len() == 0 ==> r@.len() == 0,
    {
        let mut out: Vec<SearchResult> = Vec::new();
        let mut i: usize = 0;
        while i < repositories.len()
            invariant
                i <= repositories@.len(),
                candidate_views(out@) == ranked(
                    hits(entry_views(repositories@.subrange(0, i as int)), pattern@, self.case_sensitive),
                    pattern@,
                ),
            decreases repositories.len() - i,
        {
            let (name, config) = &repositories[i];
            let ghost prefix = entry_views(repositories@.subrange(0, i + 1));
            proof {
                assert(prefix.drop_last() =~= entry_views(repositories@.subrange(0, i as int)));
                assert(prefix.last() == (name@, config@));
            }
            let ghost before = hits(
                entry_views(repositories@.subrange(0, i as int)),
                pattern@,
                self.case_sensitive,
            );
            match self.score(name.as_str(), pattern) {
                Some(score) => {
                    let c = SearchResult { name: name.clone(), repo_config: config.clone(), score };
                    self.insert_ranked_exec(&mut out, c, pattern);
                    proof {
                        let after = before.push(c@);
                        assert(hits(prefix, pattern@, self.case_sensitive) == after);
                        assert(after.drop_last() =~= before);
                    }
                },
                None => {
                    assert(hits(prefix, pattern@, self.case_sensitive) == before);
                },
            }
            i += 1;
        }
        proof {
            assert(repositories@.subrange(0, i as int) =~= repositories@);
            if repositories@.len() == 0 {
                assert(entry_views(repositories@).len() == 0);
            }
        }
        out
    }

    fn ranks_at_least_exec(a: &SearchResult, c: &SearchResult, c_exact: bool, pattern: &str) -> (r: bool)
        requires
            c_exact == (c@.name == pattern@),
        ensures
            r == ranks_at_least(a@, c@, pattern@),
    {
        let a_exact = str_eq(a.name.as_str(), pattern);
        (a_exact && !c_exact) || (a_exact == c_exact && a.score >= c.score)
    }

    fn insert_ranked_exec(&self, out: &mut Vec<SearchResult>, c: SearchResult, pattern: &str)
        ensures
            candidate_views(final(out)@) == insert_ranked(candidate_views(old(out)@), c@, pattern@),
    {
        let ghost s = candidate_views(out@);
        let c_exact = str_eq(c.name.as_str(), pattern);
        let mut p: usize = 0;
        assert(s.subrange(0, s.len() as int) =~= s);
        while p < out.len() && Self::ranks_at_least_exec(&out[p], &c, c_exact, pattern)
            invariant
                p <= out@.len(),
                s == candidate_views(out@),
                c_exact == (c@.name == pattern@),
                leading_at_least(s, c@, pattern@) == p + leading_at_least(
                    s.subrange(p as int, s.len() as int),
                    c@,
                    pattern@,
                ),
            decreases out.len() - p,
        {
            proof {
                let t = s.subrange(p as int, s.len() as int);
                assert(t.drop_first() =~= s.subrange(p + 1, s.len() as int));
            }
            p += 1;
        }
        proof {
            assert(s.subrange(0, s.len() as int) =~= s);
            let t = s.subrange(p as int, s.len() as int);
            if p < out@.len() {
                assert(t[0] == s[p as int]);
            }
        }
        out.insert(p, c);
        proof {
            assert(candidate_views(out@) =~= s.insert(p as int, c@));
        }
    }
}

/// Search results put names equal to the query first and then descend by
/// score; they are the matching entries, each as often as it matched; and
/// entries of equal rank keep their input order.
pub proof fn lemma_search_ranking(
    e: Seq<(Seq<char>, RecordView)>,
    pattern: Seq<char>,
    case_sensitive: bool,
    k: CandidateView,
)
    ensures
        descending(ranked(hits(e, pattern, case_sensitive), pattern), pattern),
        ranked(hits(e, pattern, case_sensitive), pattern).to_multiset() == hits(
            e,
            pattern,
            case_sensitive,
        ).to_multiset(),
        with_rank(ranked(hits(e, pattern, case_sensitive), pattern), k, pattern) == with_rank(
            hits(e, pattern, case_sensitive),
            k,
            pattern,
        ),
{
    lemma_ranked_descending(hits(e, pattern, case_sensitive), pattern);
    lemma_ranked_permutes(hits(e, pattern, case_sensitive), pattern);
    lemma_ranked_stable(hits(e, pattern, case_sensitive), pattern, k);
}

/// Among search results, a repository named exactly as the query ranks
/// above every sub-sequence-only match.
pub proof fn lemma_search_exact_first(
    e: Seq<(Seq<char>, RecordView)>,
    pattern: Seq<char>,
    case_sensitive: bool,
    i: int,
    j: int,
)
    requires
        0 <= i < ranked(hits(e, pattern, case_sensitive), pattern).len(),
        0 <= j < ranked(hits(e, pattern, case_sensitive), pattern).len(),
        ranked(hits(e, pattern, case_sensitive), pattern)[i].name == pattern,
        ranked(hits(e, pattern, case_sensitive), pattern)[j].name != pattern,
    ensures
        i < j,
{
    lemma_exact_name_first(hits(e, pattern, case_sensitive), pattern, i, j);
}

/// Every search result contains the query's characters in order; so a name
/// lacking one of the query's characters is never among the results.
pub proof fn lemma_search_only_subsequences(
    e: Seq<(Seq<char>, RecordView)>,
    pattern: Seq<char>,
    case_sensitive: bool,
    i: int,
)
    requires
        0 <= i < ranked(hits(e, pattern, case_sensitive), pattern).len(),
    ensures
        is_subsequence(
            pattern,
            ranked(hits(e, pattern, case_sensitive), pattern)[i].name,
            case_sensitive,
        ),
{
    let h = hits(e, pattern, case_sensitive);
    let x = ranked(h, pattern)[i];
    assert(ranked(h, pattern).contains(x));
    lemma_ranked_within(h, pattern, x);
    lemma_hits_match(e, pattern, case_sensitive, x);
}

/// A name with a character that agrees with no character of the query's is
/// not a subsequence match, hence never a search result.
pub proof fn lemma_missing_character_excludes(
    pattern: Seq<char>,
    name: Seq<char>,
    case_sensitive: bool,
    k: int,
)
    requires
        0 <= k < pattern.len(),
        forall|j: int| 0 <= j < name.len() ==> !chars_agree(name[j], pattern[k], case_sensitive),
    ensures
        !is_subsequence(pattern, name, case_sensitive),
{
    if is_subsequence(pattern, name, case_sensitive) {
        let idx = choose|idx: Seq<int>|
            idx.len() == pattern.len() && (forall|i: int|
                0 <= i < idx.len() ==> 0 <= #[trigger] idx[i] < name.len() && chars_agree(
                    name[idx[i]],
                    pattern[i],
                    case_sensitive,
                )) && (forall|i: int, j: int| 0 <= i < j < idx.len() ==> idx[i] < idx[j]);
        assert(0 <= idx[k] < name.len());
    }
}

} // verus!
