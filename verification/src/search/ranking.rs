//! The order in which results are listed.
use super::{results_view, ResultView, SearchResult};
use crate::text::lemma_filter_member;
use vstd::prelude::*;

verus! {

/// The most results that a query returns.
pub const MAX_RESULTS: usize = 20;

/// How many of the leading results of `list` stay ahead of a later one with score `score`: all up
/// to the last that scores at least as much.
pub open spec fn place(list: Seq<ResultView>, score: i64) -> nat
    decreases list.len(),
{
    if list.len() == 0 || list.last().score >= score {
        list.len()
    } else {
        place(list.drop_last(), score)
    }
}

/// The results ordered by score, highest first; results with the same score keep their order.
pub open spec fn ranked(results: Seq<ResultView>) -> Seq<ResultView>
    decreases results.len(),
{
    if results.len() == 0 {
        Seq::empty()
    } else {
        let ahead = ranked(results.drop_last());
        ahead.insert(place(ahead, results.last().score) as int, results.last())
    }
}

/// The first `MAX_RESULTS` members of a list, or all of a shorter one.
pub open spec fn at_most_max(list: Seq<ResultView>) -> Seq<ResultView> {
    if list.len() <= MAX_RESULTS {
        list
    } else {
        list.take(MAX_RESULTS as int)
    }
}

/// What a query returns of the results that the providers found.
pub open spec fn best(results: Seq<ResultView>) -> Seq<ResultView> {
    at_most_max(ranked(results))
}

/// A place lies within the list, with everything before the cut at its end.
proof fn lemma_place(list: Seq<ResultView>, score: i64)
    ensures
        place(list, score) <= list.len(),
        forall|i: int| place(list, score) <= i < list.len() ==> (#[trigger] list[i]).score < score,
        place(list, score) > 0 ==> list[place(list, score) - 1].score >= score,
    decreases list.len(),
{
    if list.len() > 0 && list.last().score < score {
        lemma_place(list.drop_last(), score);
        assert forall|i: int| place(list, score) <= i < list.len() implies (
        #[trigger] list[i]).score < score by {
            if i < list.len() - 1 {
                assert(list.drop_last()[i].score < score);
            }
        }
    }
}

/// Cutting a list short before inserting changes nothing of what is kept.
proof fn lemma_insert_after_cut(list: Seq<ResultView>, result: ResultView)
    requires
        forall|i: int, j: int| 0 <= i <= j < list.len() ==> (#[trigger] list[i]).score >= (
        #[trigger] list[j]).score,
    ensures
        ({
            let cut = at_most_max(list);
            at_most_max(list.insert(place(list, result.score) as int, result)) == at_most_max(
                cut.insert(place(cut, result.score) as int, result),
            )
        }),
{
    let cut = at_most_max(list);
    let at = place(list, result.score);
    let cut_at = place(cut, result.score);
    lemma_place(list, result.score);
    lemma_place(cut, result.score);
    let whole = list.insert(at as int, result);
    let short = cut.insert(cut_at as int, result);
    if list.len() > MAX_RESULTS {
        if at <= MAX_RESULTS {
            if cut_at < at {
                assert(list[at - 1].score >= result.score);
                assert(cut[cut_at as int].score >= cut[at - 1].score);
            }
            if at < cut_at {
                assert(cut[cut_at - 1].score >= result.score);
                assert(list[at as int].score >= list[cut_at - 1].score);
            }
            assert(at_most_max(whole) =~= at_most_max(short));
        } else {
            assert(list[MAX_RESULTS - 1].score >= list[at - 1].score);
            if cut_at < MAX_RESULTS {
                assert(cut[cut_at as int].score >= cut[MAX_RESULTS - 1].score);
            }
            assert(at_most_max(whole) =~= at_most_max(short));
        }
    }
}

/// Results are listed highest score first.
pub proof fn law_best_first(results: Seq<ResultView>)
    ensures
        ranked(results).len() == results.len(),
        forall|i: int, j: int|
            0 <= i <= j < results.len() ==> (#[trigger] ranked(results)[i]).score >= (
            #[trigger] ranked(results)[j]).score,
    decreases results.len(),
{
    if results.len() > 0 {
        law_best_first(results.drop_last());
        let ahead = ranked(results.drop_last());
        let score = results.last().score;
        lemma_place(ahead, score);
        let at = place(ahead, score) as int;
        let all = ranked(results);
        assert forall|i: int, j: int| 0 <= i <= j < results.len() implies (
        #[trigger] all[i]).score >= (#[trigger] all[j]).score by {
            if i < at && at <= j {
                assert(ahead[i].score >= ahead[at - 1].score);
            }
        }
    }
}

/// Ranking neither drops, adds nor changes a result.
pub proof fn law_ranking_keeps_every_result(results: Seq<ResultView>)
    ensures
        ranked(results).to_multiset() == results.to_multiset(),
    decreases results.len(),
{
    broadcast use vstd::seq_lib::group_to_multiset_ensures;

    if results.len() == 0 {
        assert(ranked(results) =~= results);
    } else {
        law_ranking_keeps_every_result(results.drop_last());
        let ahead = ranked(results.drop_last());
        let at = place(ahead, results.last().score) as int;
        lemma_place(ahead, results.last().score);
        vstd::seq_lib::to_multiset_insert(ahead, at, results.last());
        assert(results =~= results.drop_last().push(results.last()));
        assert(ranked(results).to_multiset() =~= results.to_multiset());
    }
}

/// Results with the same score stay in the order in which the providers gave them.
pub proof fn law_ties_keep_their_order(results: Seq<ResultView>, score: i64)
    ensures
        ranked(results).filter(|r: ResultView| r.score == score) == results.filter(
            |r: ResultView| r.score == score,
        ),
    decreases results.len(),
{
    let tied = |r: ResultView| r.score == score;
    reveal(Seq::filter);
    if results.len() > 0 {
        law_ties_keep_their_order(results.drop_last(), score);
        law_best_first(results.drop_last());
        let ahead = ranked(results.drop_last());
        let result = results.last();
        lemma_place(ahead, result.score);
        let at = place(ahead, result.score) as int;
        let front = ahead.take(at);
        let back = ahead.skip(at);
        assert(ahead =~= front + back);
        assert(ranked(results) =~= front + (seq![result] + back));
        Seq::filter_distributes_over_add(front, back, tied);
        Seq::filter_distributes_over_add(seq![result], back, tied);
        Seq::filter_distributes_over_add(front, seq![result] + back, tied);
        assert(seq![result].drop_last() =~= Seq::empty());
        assert(Seq::<ResultView>::empty().filter(tied) =~= Seq::empty());
        assert(seq![result].filter(tied) =~= if tied(result) {
            seq![result]
        } else {
            Seq::empty()
        });
        if tied(result) {
            assert(back.filter(tied).len() == 0) by {
                if back.filter(tied).len() > 0 {
                    let r = back.filter(tied)[0];
                    assert(back.filter(tied).contains(r));
                    lemma_filter_member(back, tied, 0);
                    let k = choose|k: int| 0 <= k < back.len() && back[k] == r;
                    assert(ahead[at + k].score < score);
                }
            }
            assert(ranked(results).filter(tied) =~= ahead.filter(tied).push(result));
        } else {
            assert(ranked(results).filter(tied) =~= ahead.filter(tied));
        }
    }
}

/// A query returns at most `MAX_RESULTS` results, and none that it leaves out scores higher than
/// one that it returns.
pub proof fn law_only_the_best_are_kept(results: Seq<ResultView>)
    ensures
        best(results).len() == if results.len() <= MAX_RESULTS {
            results.len()
        } else {
            MAX_RESULTS as nat
        },
        forall|i: int, j: int|
            0 <= i < best(results).len() <= j < results.len() ==> (
            #[trigger] best(results)[i]).score >= (#[trigger] ranked(results)[j]).score,
{
    law_best_first(results);
}

/// Lists the best of `results`, highest score first.
pub fn best_results(results: Vec<SearchResult>) -> (list: Vec<SearchResult>)
    ensures
        results_view(list@) == best(results_view(results@)),
{
    let ghost all = results_view(results@);
    let mut list: Vec<SearchResult> = Vec::new();
    for result in it: results.into_iter()
        invariant
            results_view(it.seq()) == all,
            results_view(list@) == best(all.take(it.index())),
    {
        let ghost seen = all.take(it.index());
        let ghost listed = list@;
        let mut at: usize = list.len();
        assert(results_view(list@).take(at as int) =~= results_view(list@));
        while at > 0 && list[at - 1].score < result.score
            invariant
                at <= list.len(),
                place(results_view(list@), result.score) == place(
                    results_view(list@).take(at as int),
                    result.score,
                ),
            decreases at,
        {
            assert(results_view(list@).take(at as int).drop_last() =~= results_view(list@).take(
                at - 1,
            ));
            at = at - 1;
        }
        list.insert(at, result);
        proof {
            assert(results_view(list@) =~= results_view(listed).insert(at as int, result@));
            assert(all.take(it.index() + 1).drop_last() =~= seen);
            law_best_first(seen);
            lemma_insert_after_cut(ranked(seen), result@);
        }
        list.truncate(MAX_RESULTS);
        assert(results_view(list@) =~= best(all.take(it.index() + 1)));
    }
    assert(all.take(all.len() as int) =~= all);
    list
}

} // verus!
