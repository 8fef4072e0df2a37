//! Ranking layer: score sessions against a live query through the
//! fuzzy-matching oracle and order them best-first.

use vstd::multiset::Multiset;
use vstd::prelude::*;

use crate::session::Session;

verus! {

/// The score the fuzzy-matching oracle gives a haystack for a query,
/// `None` when the haystack does not match; a function of the two
/// texts alone, higher is better.
pub uninterp spec fn fuzzy_score_of(query: Seq<char>, haystack: Seq<char>) -> Option<u32>;

/// Relies on `nucleo_matcher::pattern::Pattern`: `parse` followed by
/// `score` with the default matcher configuration and smart case
/// matching and normalization is deterministic in the query and the
/// haystack.
#[verifier::external_body]
fn match_score(query: &str, haystack: &str) -> (r: Option<u32>)
    ensures
        r == fuzzy_score_of(query@, haystack@),
{
    let pattern = nucleo_matcher::pattern::Pattern::parse(
        query,
        nucleo_matcher::pattern::CaseMatching::Smart,
        nucleo_matcher::pattern::Normalization::Smart,
    );
    let mut matcher = nucleo_matcher::Matcher::new(nucleo_matcher::Config::DEFAULT);
    let mut buf = Vec::new();
    pattern.score(nucleo_matcher::Utf32Str::new(haystack, &mut buf), &mut matcher)
}

/// The composite text a session is matched against:
/// `"{project_name} {git_branch-or-empty} {first_message}"`.
pub open spec fn haystack_of(s: Session) -> Seq<char> {
    s.project_name@ + " "@ + (match s.git_branch {
        Some(b) => b@,
        None => Seq::<char>::empty(),
    }) + " "@ + s.first_message@
}

/// Build the composite haystack for one session.
pub fn build_haystack(s: &Session) -> (r: String)
    ensures
        r@ == haystack_of(*s),
{
    let mut r = String::new();
    r.append(s.project_name.as_str());
    r.append(" ");
    match &s.git_branch {
        Some(b) => r.append(b.as_str()),
        None => {},
    }
    r.append(" ");
    r.append(s.first_message.as_str());
    proof {
        if s.git_branch is None {
            assert(s.project_name@ + " "@ + Seq::<char>::empty() =~= s.project_name@ + " "@);
        }
    }
    r
}

/// The `(index, score)` pairs of the first `n` sessions that the
/// oracle matches, in index order.
pub open spec fn scored_prefix(sessions: Seq<Session>, query: Seq<char>, n: int) -> Seq<
    (usize, u32),
>
    decreases n,
{
    if n <= 0 {
        Seq::empty()
    } else {
        scored_prefix(sessions, query, n - 1) + match fuzzy_score_of(
            query,
            haystack_of(sessions[n - 1]),
        ) {
            Some(sc) => seq![((n - 1) as usize, sc)],
            None => Seq::<(usize, u32)>::empty(),
        }
    }
}

/// Every scored pair points at a session before `n` and carries the
/// oracle's score for it.
proof fn lemma_scored_prefix_ok(sessions: Seq<Session>, query: Seq<char>, n: int)
    requires
        n <= sessions.len(),
        n <= usize::MAX,
    ensures
        forall|k: int|
            0 <= k < scored_prefix(sessions, query, n).len() ==> {
                let p = #[trigger] scored_prefix(sessions, query, n)[k];
                &&& (p.0 as int) < n
                &&& Some(p.1) == fuzzy_score_of(query, haystack_of(sessions[p.0 as int]))
            },
    decreases n,
{
    if n > 0 {
        lemma_scored_prefix_ok(sessions, query, n - 1);
        let prefix = scored_prefix(sessions, query, n - 1);
        let whole = scored_prefix(sessions, query, n);
        assert forall|k: int| 0 <= k < whole.len() implies {
            let p = #[trigger] whole[k];
            &&& (p.0 as int) < n
            &&& Some(p.1) == fuzzy_score_of(query, haystack_of(sessions[p.0 as int]))
        } by {
            if k < prefix.len() {
                assert(whole[k] == prefix[k]);
            } else {
                assert(whole[k] == (((n - 1) as usize), fuzzy_score_of(
                    query,
                    haystack_of(sessions[n - 1]),
                )->Some_0));
            }
        }
    }
}

/// Every session the oracle matches appears among the scored pairs.
proof fn lemma_scored_prefix_complete(sessions: Seq<Session>, query: Seq<char>, n: int)
    requires
        n <= sessions.len(),
        n <= usize::MAX,
    ensures
        forall|i: int|
            0 <= i < n && #[trigger] fuzzy_score_of(query, haystack_of(sessions[i])) is Some
                ==> scored_prefix(sessions, query, n).contains(
                ((i as usize), fuzzy_score_of(query, haystack_of(sessions[i]))->Some_0),
            ),
    decreases n,
{
    if n > 0 {
        lemma_scored_prefix_complete(sessions, query, n - 1);
        let prefix = scored_prefix(sessions, query, n - 1);
        let whole = scored_prefix(sessions, query, n);
        assert forall|i: int|
            0 <= i < n && #[trigger] fuzzy_score_of(
                query,
                haystack_of(sessions[i]),
            ) is Some implies whole.contains(
            ((i as usize), fuzzy_score_of(query, haystack_of(sessions[i]))->Some_0),
        ) by {
            let p = ((i as usize), fuzzy_score_of(query, haystack_of(sessions[i]))->Some_0);
            if i < n - 1 {
                assert(prefix.contains(p));
                let k = choose|k: int| 0 <= k < prefix.len() && prefix[k] == p;
                assert(whole[k] == p);
                assert(whole.contains(p));
            } else {
                assert(whole[whole.len() - 1] == p);
                assert(whole.contains(p));
            }
        }
    }
}

/// Pairs ordered by score, best first.
pub open spec fn scores_desc(s: Seq<(usize, u32)>) -> bool {
    forall|i: int, j: int| 0 <= i < j < s.len() ==> s[i].1 >= s[j].1
}

/// The predicate that picks pairs carrying score `sc`.
pub open spec fn has_score(sc: u32) -> spec_fn((usize, u32)) -> bool {
    |p: (usize, u32)| p.1 == sc
}

/// The subsequence of pairs carrying score `sc`, in order.
pub open spec fn with_score(s: Seq<(usize, u32)>, sc: u32) -> Seq<(usize, u32)> {
    s.filter(has_score(sc))
}

/// Sort score pairs by score descending. The result is a permutation
/// of the input, and the sort is stable: for every score, the pairs
/// carrying it keep their relative order.
fn sort_scored_desc(pairs: Vec<(usize, u32)>) -> (r: Vec<(usize, u32)>)
    ensures
        scores_desc(r@),
        r@.to_multiset() == pairs@.to_multiset(),
        forall|sc: u32| #[trigger] with_score(r@, sc) == with_score(pairs@, sc),
{
    let mut rem = pairs;
    let mut out: Vec<(usize, u32)> = Vec::new();
    proof {
        broadcast use vstd::seq_lib::group_to_multiset_ensures;
        broadcast use vstd::multiset::group_multiset_axioms;

        vstd::seq_lib::to_multiset_len(out@);
        vstd::multiset::lemma_multiset_empty_len(out@.to_multiset());
        assert(out@.to_multiset().add(rem@.to_multiset()) =~= rem@.to_multiset());
        assert forall|sc: u32|
            #[trigger] with_score(out@, sc) + with_score(rem@, sc) == with_score(pairs@, sc) by {
            out@.lemma_all_neg_filter_empty(has_score(sc));
            assert(with_score(out@, sc) =~= Seq::<(usize, u32)>::empty());
            assert(with_score(out@, sc) + with_score(rem@, sc) =~= with_score(rem@, sc));
        }
    }
    loop
        invariant
            scores_desc(out@),
            forall|a: int, b: int|
                0 <= a < out@.len() && 0 <= b < rem@.len() ==> out@[a].1 >= rem@[b].1,
            out@.to_multiset().add(rem@.to_multiset()) == pairs@.to_multiset(),
            forall|sc: u32|
                #[trigger] with_score(out@, sc) + with_score(rem@, sc) == with_score(pairs@, sc),
        ensures
            rem@.len() == 0,
        decreases rem@.len(),
    {
        if rem.len() == 0 {
            break ;
        }
        let mut best: usize = 0;
        let mut j: usize = 1;
        while j < rem.len()
            invariant
                rem@.len() > 0,
                (best as int) < (j as int),
                j <= rem@.len(),
                forall|k: int| 0 <= k < j ==> rem@[best as int].1 >= rem@[k].1,
                forall|k: int| 0 <= k < best ==> rem@[k].1 < rem@[best as int].1,
            decreases rem@.len() - j,
        {
            if rem[j].1 > rem[best].1 {
                best = j;
            }
            j = j + 1;
        }
        let ghost pre_rem = rem@;
        let ghost pre_out = out@;
        let x = rem.remove(best);
        out.push(x);
        proof {
            broadcast use vstd::seq_lib::group_to_multiset_ensures;
            broadcast use vstd::multiset::group_multiset_axioms;

            assert(pre_rem.contains(x)) by {
                assert(pre_rem[best as int] == x);
            }
            assert(pre_rem.to_multiset().count(x) > 0);
            assert(out@.to_multiset().add(rem@.to_multiset()) =~= pre_out.to_multiset().add(
                pre_rem.to_multiset(),
            ));
            assert forall|b: int| 0 <= b < rem@.len() implies x.1 >= rem@[b].1 by {
                if b < best {
                    assert(rem@[b] == pre_rem[b]);
                } else {
                    assert(rem@[b] == pre_rem[b + 1]);
                }
            }
            let front = pre_rem.take(best as int);
            let back = pre_rem.skip(best as int + 1);
            assert forall|sc: u32|
                #[trigger] with_score(out@, sc) + with_score(rem@, sc) == with_score(
                    pairs@,
                    sc,
                ) by {
                let p = has_score(sc);
                assert(pre_rem =~= front + (seq![x] + back));
                assert(rem@ =~= front + back);
                Seq::filter_distributes_over_add(front, seq![x] + back, p);
                Seq::filter_distributes_over_add(front, back, p);
                back.lemma_filter_prepend(x, p);
                assert(out@ =~= pre_out + seq![x]);
                Seq::filter_distributes_over_add(pre_out, seq![x], p);
                Seq::<(usize, u32)>::empty().lemma_filter_prepend(x, p);
                assert(seq![x] + Seq::<(usize, u32)>::empty() =~= seq![x]);
                if x.1 == sc {
                    assert(front.all(|e: (usize, u32)| !p(e))) by {
                        assert forall|k: int| 0 <= k < front.len() implies !p(front[k]) by {
                            assert(front[k] == pre_rem[k]);
                            assert(pre_rem[k].1 < x.1);
                        }
                    }
                    front.lemma_all_neg_filter_empty(p);
                    assert(front.filter(p) =~= Seq::<(usize, u32)>::empty());
                    assert(with_score(out@, sc) + with_score(rem@, sc) =~= with_score(pre_out, sc)
                        + with_score(pre_rem, sc));
                } else {
                    assert(with_score(out@, sc) + with_score(rem@, sc) =~= with_score(pre_out, sc)
                        + with_score(pre_rem, sc));
                }
            }
        }
    }
    proof {
        broadcast use vstd::seq_lib::group_to_multiset_ensures;
        broadcast use vstd::multiset::group_multiset_axioms;

        vstd::seq_lib::to_multiset_len(rem@);
        vstd::multiset::lemma_multiset_empty_len(rem@.to_multiset());
        assert(rem@.to_multiset() =~= Multiset::empty());
        assert(out@.to_multiset().add(Multiset::<(usize, u32)>::empty()) =~= out@.to_multiset());
        assert forall|sc: u32| #[trigger] with_score(out@, sc) == with_score(pairs@, sc) by {
            rem@.lemma_all_neg_filter_empty(has_score(sc));
            assert(with_score(rem@, sc) =~= Seq::<(usize, u32)>::empty());
            assert(with_score(out@, sc) =~= with_score(out@, sc) + with_score(rem@, sc));
        }
    }
    out
}

/// The indices of `pairs`, in order.
pub open spec fn index_projection(pairs: Seq<(usize, u32)>) -> Seq<usize> {
    pairs.map_values(|p: (usize, u32)| p.0)
}

/// The predicate that picks indices whose haystack the oracle scores
/// exactly `sc`.
pub open spec fn score_is(sessions: Seq<Session>, query: Seq<char>, sc: u32) -> spec_fn(
    usize,
) -> bool {
    |i: usize| fuzzy_score_of(query, haystack_of(sessions[i as int])) == Some(sc)
}

/// The indices in `idxs` whose haystack the oracle scores exactly
/// `sc`, in order.
pub open spec fn indices_scored(
    sessions: Seq<Session>,
    query: Seq<char>,
    idxs: Seq<usize>,
    sc: u32,
) -> Seq<usize> {
    idxs.filter(score_is(sessions, query, sc))
}

/// Projecting score pairs to indices commutes with restricting to one
/// score, as long as every pair carries the oracle's score for its
/// index.
proof fn lemma_indices_scored(
    sessions: Seq<Session>,
    query: Seq<char>,
    pairs: Seq<(usize, u32)>,
    sc: u32,
)
    requires
        forall|k: int|
            0 <= k < pairs.len() ==> Some(#[trigger] pairs[k].1) == fuzzy_score_of(
                query,
                haystack_of(sessions[pairs[k].0 as int]),
            ),
    ensures
        indices_scored(sessions, query, index_projection(pairs), sc) == index_projection(
            with_score(pairs, sc),
        ),
    decreases pairs.len(),
{
    let p = has_score(sc);
    let q = score_is(sessions, query, sc);
    if pairs.len() == 0 {
        assert(index_projection(pairs) =~= Seq::<usize>::empty());
        pairs.lemma_all_neg_filter_empty(p);
        assert(with_score(pairs, sc) =~= Seq::<(usize, u32)>::empty());
        Seq::<usize>::empty().lemma_all_neg_filter_empty(q);
        assert(indices_scored(sessions, query, index_projection(pairs), sc) =~= Seq::<
            usize,
        >::empty());
        assert(index_projection(with_score(pairs, sc)) =~= Seq::<usize>::empty());
    } else {
        let front = pairs.drop_last();
        let x = pairs.last();
        assert forall|k: int| 0 <= k < front.len() implies Some(#[trigger] front[k].1)
            == fuzzy_score_of(query, haystack_of(sessions[front[k].0 as int])) by {
            assert(front[k] == pairs[k]);
        }
        lemma_indices_scored(sessions, query, front, sc);
        assert(pairs =~= front + seq![x]);
        Seq::filter_distributes_over_add(front, seq![x], p);
        Seq::<(usize, u32)>::empty().lemma_filter_prepend(x, p);
        assert(seq![x] + Seq::<(usize, u32)>::empty() =~= seq![x]);
        assert(index_projection(pairs) =~= index_projection(front) + seq![x.0]);
        Seq::filter_distributes_over_add(index_projection(front), seq![x.0], q);
        Seq::<usize>::empty().lemma_filter_prepend(x.0, q);
        assert(seq![x.0] + Seq::<usize>::empty() =~= seq![x.0]);
        assert(q(x.0) == p(x));
        if p(x) {
            assert(index_projection(with_score(pairs, sc)) =~= index_projection(
                with_score(front, sc),
            ) + seq![x.0]);
            assert(indices_scored(sessions, query, index_projection(pairs), sc) =~= indices_scored(
                sessions,
                query,
                index_projection(front),
                sc,
            ) + seq![x.0]);
        } else {
            assert(index_projection(with_score(pairs, sc)) =~= index_projection(
                with_score(front, sc),
            ));
            assert(indices_scored(sessions, query, index_projection(pairs), sc) =~= indices_scored(
                sessions,
                query,
                index_projection(front),
                sc,
            ));
        }
    }
}

/// `idxs` is a ranking of `sessions` for `query`: it lists exactly
/// the sessions the oracle matches, ordered by score, best first,
/// with ties keeping the oracle's own (index) order.
pub open spec fn ranking_of(sessions: Seq<Session>, query: Seq<char>, idxs: Seq<usize>) -> bool {
    &&& forall|k: int|
        0 <= k < idxs.len() ==> (#[trigger] idxs[k] as int) < sessions.len() && fuzzy_score_of(
            query,
            haystack_of(sessions[idxs[k] as int]),
        ) is Some
    &&& forall|i: int|
        0 <= i < sessions.len() && #[trigger] fuzzy_score_of(
            query,
            haystack_of(sessions[i]),
        ) is Some ==> idxs.contains(i as usize)
    &&& forall|k1: int, k2: int|
        0 <= k1 < k2 < idxs.len() ==> fuzzy_score_of(
            query,
            haystack_of(sessions[#[trigger] idxs[k1] as int]),
        )->Some_0 >= fuzzy_score_of(
            query,
            haystack_of(sessions[#[trigger] idxs[k2] as int]),
        )->Some_0
    &&& forall|sc: u32|
        #[trigger] indices_scored(sessions, query, idxs, sc) == index_projection(
            with_score(scored_prefix(sessions, query, sessions.len() as int), sc),
        )
}

/// The indices of the sessions the oracle matches for `query`, best
/// score first.
pub fn ranked_index_list(sessions: &Vec<Session>, query: &str) -> (r: Vec<usize>)
    ensures
        ranking_of(sessions@, query@, r@),
{
    let total = sessions.len();
    let pairs = fuzzy_filter(sessions, query);
    let mut idxs: Vec<usize> = Vec::new();
    let mut k: usize = 0;
    while k < pairs.len()
        invariant
            k <= pairs@.len(),
            idxs@.len() == k,
            forall|j: int| 0 <= j < k ==> #[trigger] idxs@[j] == pairs@[j].0,
        decreases pairs@.len() - k,
    {
        idxs.push(pairs[k].0);
        k = k + 1;
    }
    proof {
        broadcast use vstd::seq_lib::group_to_multiset_ensures;
        broadcast use vstd::multiset::group_multiset_axioms;

        let q = query@;
        let ss = sessions@;
        assert(ss.len() == total as int);
        let scored = scored_prefix(ss, q, ss.len() as int);
        assert forall|k1: int, k2: int| 0 <= k1 < k2 < idxs@.len() implies fuzzy_score_of(
            q,
            haystack_of(ss[#[trigger] idxs@[k1] as int]),
        )->Some_0 >= fuzzy_score_of(
            q,
            haystack_of(ss[#[trigger] idxs@[k2] as int]),
        )->Some_0 by {
            assert(idxs@[k1] == pairs@[k1].0);
            assert(idxs@[k2] == pairs@[k2].0);
            assert(pairs@[k1].1 >= pairs@[k2].1);
            assert(Some(pairs@[k1].1) == fuzzy_score_of(q, haystack_of(ss[pairs@[k1].0 as int])));
            assert(Some(pairs@[k2].1) == fuzzy_score_of(q, haystack_of(ss[pairs@[k2].0 as int])));
        }
        lemma_scored_prefix_complete(ss, q, ss.len() as int);
        assert forall|i: int|
            0 <= i < ss.len() && #[trigger] fuzzy_score_of(
                q,
                haystack_of(ss[i]),
            ) is Some implies idxs@.contains(i as usize) by {
            let p = ((i as usize), fuzzy_score_of(q, haystack_of(ss[i]))->Some_0);
            assert(scored.contains(p));
            assert(scored.to_multiset().count(p) > 0);
            assert(pairs@.to_multiset().count(p) > 0);
            assert(pairs@.contains(p));
            let m = choose|m: int| 0 <= m < pairs@.len() && pairs@[m] == p;
            assert(idxs@[m] == (i as usize));
            assert(idxs@.contains(i as usize));
        }
        assert(idxs@ =~= index_projection(pairs@));
        assert forall|sc: u32| #[trigger] indices_scored(ss, q, idxs@, sc) == index_projection(
            with_score(scored, sc),
        ) by {
            lemma_indices_scored(ss, q, pairs@, sc);
            assert(with_score(pairs@, sc) == with_score(scored, sc));
        }
    }
    idxs
}

/// Fuzzy-match `query` against every session, returning matching
/// indices with their scores, best score first.
///
/// Callers short-circuit an empty query to "all sessions, original
/// order" instead of invoking the oracle.
pub fn fuzzy_filter(sessions: &Vec<Session>, query: &str) -> (r: Vec<(usize, u32)>)
    ensures
        scores_desc(r@),
        r@.to_multiset() == scored_prefix(sessions@, query@, sessions@.len() as int).to_multiset(),
        forall|sc: u32|
            #[trigger] with_score(r@, sc) == with_score(
                scored_prefix(sessions@, query@, sessions@.len() as int),
                sc,
            ),
        forall|k: int|
            0 <= k < r@.len() ==> (#[trigger] r@[k].0 as int) < sessions@.len() && Some(r@[k].1)
                == fuzzy_score_of(query@, haystack_of(sessions@[r@[k].0 as int])),
{
    let mut pairs: Vec<(usize, u32)> = Vec::new();
    let mut i: usize = 0;
    while i < sessions.len()
        invariant
            i <= sessions@.len(),
            pairs@ == scored_prefix(sessions@, query@, i as int),
        decreases sessions@.len() - i,
    {
        let ghost pre = pairs@;
        let haystack = build_haystack(&sessions[i]);
        match match_score(query, haystack.as_str()) {
            Some(sc) => {
                pairs.push((i, sc));
                proof {
                    assert(pairs@ =~= pre + seq![(i, sc)]);
                }
            },
            None => {
                proof {
                    assert(pairs@ =~= pre + Seq::<(usize, u32)>::empty());
                }
            },
        }
        i = i + 1;
    }
    let ghost scored = scored_prefix(sessions@, query@, sessions@.len() as int);
    let r = sort_scored_desc(pairs);
    proof {
        broadcast use vstd::seq_lib::group_to_multiset_ensures;
        broadcast use vstd::multiset::group_multiset_axioms;

        lemma_scored_prefix_ok(sessions@, query@, sessions@.len() as int);
        assert forall|k: int| 0 <= k < r@.len() implies (#[trigger] r@[k].0 as int)
            < sessions@.len() && Some(r@[k].1) == fuzzy_score_of(
            query@,
            haystack_of(sessions@[r@[k].0 as int]),
        ) by {
            assert(r@.contains(r@[k]));
            assert(r@.to_multiset().count(r@[k]) > 0);
            assert(scored.to_multiset().count(r@[k]) > 0);
            assert(scored.contains(r@[k]));
            let m = choose|m: int| 0 <= m < scored.len() && scored[m] == r@[k];
            assert(scored[m] == r@[k]);
        }
    }
    r
}

} // verus!
