//! Search engine: a set of providers that turn a query string into ranked
//! results. Kept provider-generic so later sources (commands, files,
//! calculator, ...) plug in without touching the launcher UI.
pub mod desktop;
pub mod entry;
pub mod fuzzy;
pub mod laws;
pub mod ranking;

use self::desktop::{
    app_matches, app_score, files_view, indexed, law_matching_apps_are_found, matching_apps,
    scores_follow_matches, stands_for, stands_for_match, AppEntryView, DesktopAppProvider,
    DesktopFile, FileView,
};
use self::ranking::{
    at_most_max, best, best_results, law_best_first, law_only_the_best_are_kept,
    law_ranking_keeps_every_result, ranked, MAX_RESULTS,
};
use crate::text::{copy_list, copy_option, lemma_flatten_push, list_view, option_view};
use vstd::prelude::*;

verus! {

/// What happens when a result is activated (Enter).
pub enum Action {
    /// Spawn a program detached from the shell.
    Launch { program: String, args: Vec<String> },
}

/// What an `Action` holds.
pub enum ActionView {
    Launch { program: Seq<char>, args: Seq<Seq<char>> },
}

impl View for Action {
    type V = ActionView;

    open spec fn view(&self) -> ActionView {
        match self {
            Action::Launch { program, args } => ActionView::Launch {
                program: program@,
                args: list_view(args@),
            },
        }
    }
}

impl Clone for Action {
    fn clone(&self) -> (copy: Self)
        ensures
            copy@ == self@,
    {
        match self {
            Action::Launch { program, args } => Action::Launch {
                program: program.clone(),
                args: copy_list(args),
            },
        }
    }
}

/// A single result row.
pub struct SearchResult {
    pub title: String,
    pub subtitle: Option<String>,
    /// Freedesktop icon name (or absolute path) for the row icon.
    pub icon: Option<String>,
    /// Higher = better match.
    pub score: i64,
    pub action: Action,
}

/// What a `SearchResult` holds.
pub struct ResultView {
    pub title: Seq<char>,
    pub subtitle: Option<Seq<char>>,
    pub icon: Option<Seq<char>>,
    pub score: i64,
    pub action: ActionView,
}

impl View for SearchResult {
    type V = ResultView;

    open spec fn view(&self) -> ResultView {
        ResultView {
            title: self.title@,
            subtitle: option_view(self.subtitle),
            icon: option_view(self.icon),
            score: self.score,
            action: self.action@,
        }
    }
}

impl Clone for SearchResult {
    fn clone(&self) -> (copy: Self)
        ensures
            copy@ == self@,
    {
        SearchResult {
            title: self.title.clone(),
            subtitle: copy_option(&self.subtitle),
            icon: copy_option(&self.icon),
            score: self.score,
            action: self.action.clone(),
        }
    }
}

/// What a list of results holds.
pub open spec fn results_view(results: Seq<SearchResult>) -> Seq<ResultView> {
    results.map_values(|result: SearchResult| result@)
}

/// A source of results for a query.
pub trait SearchProvider {
    /// Whether the source is fit to be searched.
    spec fn wf(&self) -> bool;

    /// The queries that this source has answered so far, in order.
    spec fn past(&self) -> Seq<Seq<char>>;

    /// Whether `results` is an answer that this source may give to `query` after it has answered
    /// the queries of `past`. A source whose answers depend on yet more admits all that it may come
    /// to give.
    spec fn offers(
        &self,
        past: Seq<Seq<char>>,
        query: Seq<char>,
        results: Seq<ResultView>,
    ) -> bool;

    fn search(&mut self, query: &str) -> (results: Vec<SearchResult>)
        requires
            old(self).wf(),
        ensures
            final(self).wf(),
            old(self).offers(old(self).past(), query@, results_view(results@)),
            final(self).past() == old(self).past().push(query@),
            forall|past: Seq<Seq<char>>, query: Seq<char>, results: Seq<ResultView>|
                #[trigger]
                final(self).offers(past, query, results) <==> old(self).offers(
                    past,
                    query,
                    results,
                ),
    ;
}

/// One provider of a search.
struct Source {
    provider: Box<dyn SearchProvider>,
}

impl Source {
    /// The installed applications as a provider.
    fn apps(apps: DesktopAppProvider) -> (source: Self)
        ensures
            source.provider.wf() == apps.wf(),
            source.provider.past() == apps.past(),
            forall|past: Seq<Seq<char>>, query: Seq<char>, results: Seq<ResultView>|
                #[trigger]
                source.provider.offers(past, query, results) <==> apps.offers(past, query, results),
    {
        Source { provider: Box::new(apps) }
    }

    /// Asks the provider.
    fn search(&mut self, query: &str) -> (results: Vec<SearchResult>)
        requires
            old(self).provider.wf(),
        ensures
            final(self).provider.wf(),
            old(self).provider.offers(old(self).provider.past(), query@, results_view(results@)),
            final(self).provider.past() == old(self).provider.past().push(query@),
            forall|past: Seq<Seq<char>>, query: Seq<char>, results: Seq<ResultView>|
                #[trigger]
                final(self).provider.offers(past, query, results) <==> old(self).provider.offers(
                    past,
                    query,
                    results,
                ),
    {
        self.provider.search(query)
    }
}

/// Aggregates providers and ranks their combined results.
pub struct Search {
    sources: Vec<Source>,
}

impl Search {
    /// Every provider is fit to be searched.
    pub closed spec fn wf(&self) -> bool {
        forall|i: int| 0 <= i < self.sources@.len() ==> (#[trigger] self.sources@[i]).provider.wf()
    }

    /// The queries that each provider has answered so far.
    pub closed spec fn pasts(&self) -> Seq<Seq<Seq<char>>> {
        Seq::new(self.sources@.len(), |i: int| self.sources@[i].provider.past())
    }

    /// Whether `results` is an answer that provider `index` may give to `query` after it has
    /// answered the queries of `past`.
    pub closed spec fn offers(
        &self,
        index: int,
        past: Seq<Seq<char>>,
        query: Seq<char>,
        results: Seq<ResultView>,
    ) -> bool {
        self.sources@[index].provider.offers(past, query, results)
    }

    /// Whether `answers` holds an answer to `query` of each provider, where `pasts` holds what each
    /// has answered before.
    pub open spec fn offer_all(
        &self,
        pasts: Seq<Seq<Seq<char>>>,
        query: Seq<char>,
        answers: Seq<Seq<ResultView>>,
    ) -> bool {
        &&& answers.len() == pasts.len() == self.pasts().len()
        &&& forall|i: int|
            0 <= i < answers.len() ==> self.offers(i, pasts[i], query, #[trigger] answers[i])
    }

    /// Whether `results` is what a search for `query` may return, where `pasts` holds what each
    /// provider has answered before: nothing for the empty query, otherwise the best of what the
    /// providers answer, taken together.
    pub open spec fn may_answer(
        &self,
        pasts: Seq<Seq<Seq<char>>>,
        query: Seq<char>,
        results: Seq<ResultView>,
    ) -> bool {
        if query.len() == 0 {
            results.len() == 0
        } else {
            exists|answers: Seq<Seq<ResultView>>|
                #![trigger self.offer_all(pasts, query, answers)]
                self.offer_all(pasts, query, answers) && results == best(answers.flatten())
        }
    }

    /// Whether `results` is what a search for `query` may return now.
    pub open spec fn answers(&self, query: Seq<char>, results: Seq<ResultView>) -> bool {
        self.may_answer(self.pasts(), query, results)
    }

    /// Whether this is what `before` has become by answering `query`: the same providers, which
    /// have answered one more query unless it was empty.
    pub open spec fn has_answered(&self, before: Search, query: Seq<char>) -> bool {
        &&& self.same_providers(before)
        &&& self.pasts() == if query.len() == 0 {
            before.pasts()
        } else {
            before.pasts().map_values(|past: Seq<Seq<char>>| past.push(query))
        }
    }

    /// Whether the providers of `other` are those of this search, whatever they have answered.
    pub open spec fn same_providers(&self, other: Search) -> bool {
        &&& self.pasts().len() == other.pasts().len()
        &&& forall|
            index: int,
            past: Seq<Seq<char>>,
            query: Seq<char>,
            results: Seq<ResultView>,
        | #![trigger self.offers(index, past, query, results)]
            0 <= index < self.pasts().len() ==> (self.offers(index, past, query, results)
                <==> other.offers(index, past, query, results))
    }

    /// Whether this is a search over exactly the applications `apps`.
    pub open spec fn searches_apps(&self, apps: Seq<AppEntryView>) -> bool {
        &&& self.pasts().len() == 1
        &&& forall|past: Seq<Seq<char>>, query: Seq<char>, results: Seq<ResultView>| #[trigger]
            self.offers(0, past, query, results) <==> (results == matching_apps(apps, past, query)
                && scores_follow_matches(apps, past, query, apps.len()))
    }

    /// A search over the applications that `files` describe, for a user of `locales`.
    pub fn new(files: &[DesktopFile], locales: &[String]) -> (search: Self)
        ensures
            search.wf(),
            search.searches_apps(indexed(files_view(files@), list_view(locales@))),
            search.pasts() == seq![Seq::<Seq<char>>::empty()],
    {
        let apps: DesktopAppProvider = DesktopAppProvider::load(files, locales);
        let mut sources: Vec<Source> = Vec::new();
        let source: Source = Source::apps(apps);
        sources.push(source);
        let search = Search { sources };
        assert(search.pasts() =~= seq![Seq::<Seq<char>>::empty()]);
        search
    }

    /// Query all providers and return the best results, highest score first.
    pub fn query(&mut self, query: &str) -> (results: Vec<SearchResult>)
        requires
            old(self).wf(),
        ensures
            final(self).wf(),
            old(self).answers(query@, results_view(results@)),
            final(self).has_answered(*old(self), query@),
    {
        if query.is_empty() {
            return Vec::new();
        }
        let ghost start = *self;
        let mut found: Vec<SearchResult> = Vec::new();
        let ghost mut answers: Seq<Seq<ResultView>> = Seq::empty();
        let mut i: usize = 0;
        while i < self.sources.len()
            invariant
                start == *old(self),
                self.wf(),
                i <= self.sources.len(),
                self.sources@.len() == start.sources@.len(),
                answers.len() == i,
                forall|k: int|
                    0 <= k < i ==> start.offers(k, start.pasts()[k], query@, #[trigger] answers[k]),
                results_view(found@) == answers.flatten(),
                forall|k: int|
                    i <= k < self.sources@.len() ==> #[trigger] self.sources@[k]
                        == start.sources@[k],
                forall|k: int|
                    0 <= k < i ==> (#[trigger] self.sources@[k]).provider.past()
                        == start.sources@[k].provider.past().push(query@),
                self.same_providers(start),
            decreases self.sources.len() - i,
        {
            let ghost before = *self;
            let mut more: Vec<SearchResult> = self.sources[i].search(query);
            let ghost old_found = found@;
            let ghost added = results_view(more@);
            found.append(&mut more);
            proof {
                assert(results_view(found@) =~= results_view(old_found) + added);
                lemma_flatten_push(answers, added);
                assert(start.offers(i as int, start.pasts()[i as int], query@, added));
                answers = answers.push(added);
                assert forall|
                    index: int,
                    past: Seq<Seq<char>>,
                    asked: Seq<char>,
                    results: Seq<ResultView>,
                | #![trigger self.offers(index, past, asked, results)]
                    0 <= index < self.pasts().len() implies (self.offers(
                    index,
                    past,
                    asked,
                    results,
                ) <==> start.offers(index, past, asked, results)) by {
                    assert(before.offers(index, past, asked, results) <==> start.offers(
                        index,
                        past,
                        asked,
                        results,
                    ));
                }
            }
            i = i + 1;
        }
        proof {
            assert(start.offer_all(start.pasts(), query@, answers));
            assert(self.pasts() =~= start.pasts().map_values(
                |past: Seq<Seq<char>>| past.push(query@),
            ));
        }
        best_results(found)
    }
}

/// The launcher's search: for the empty query it returns nothing; for any other, the best of the
/// applications whose name fuzzy-matches it, and no others.
pub proof fn law_app_search(
    search: Search,
    apps: Seq<AppEntryView>,
    pasts: Seq<Seq<Seq<char>>>,
    query: Seq<char>,
    results: Seq<ResultView>,
)
    requires
        search.searches_apps(apps),
        search.may_answer(pasts, query, results),
    ensures
        query.len() == 0 ==> results.len() == 0,
        query.len() > 0 ==> {
            &&& results == best(matching_apps(apps, pasts[0], query))
            &&& scores_follow_matches(apps, pasts[0], query, apps.len())
        },
        forall|k: int|
            0 <= k < results.len() ==> stands_for_match(
                #[trigger] results[k],
                apps,
                pasts[0],
                query,
            ),
{
    if query.len() > 0 {
        let answers = choose|answers: Seq<Seq<ResultView>>|
            #![trigger search.offer_all(pasts, query, answers)]
            search.offer_all(pasts, query, answers) && results == best(answers.flatten());
        assert(search.offers(0, pasts[0], query, answers[0]));
        answers.lemma_flatten_one_element();
        let found = matching_apps(apps, pasts[0], query);
        law_matching_apps_are_found(apps, pasts[0], query);
        law_best_first(found);
        law_ranking_keeps_every_result(found);
        assert forall|k: int| 0 <= k < results.len() implies stands_for_match(
            #[trigger] results[k],
            apps,
            pasts[0],
            query,
        ) by {
            broadcast use vstd::seq_lib::group_to_multiset_ensures;

            let result = ranked(found)[k];
            assert(ranked(found).contains(result));
            assert(ranked(found).to_multiset().count(result) > 0);
            assert(found.to_multiset().count(result) > 0);
            let i = choose|i: int| 0 <= i < found.len() && found[i] == result;
            assert(stands_for_match(found[i], apps, pasts[0], query));
        }
    }
}

/// The installed applications are the only source: a search answers a query with the first
/// `MAX_RESULTS` of the results of a provider over the same files and locales that has answered
/// the same queries, ordered by score, highest first and ties in their order.
pub proof fn law_the_applications_are_the_only_source(
    search: Search,
    provider: DesktopAppProvider,
    files: Seq<FileView>,
    locales: Seq<Seq<char>>,
    query: Seq<char>,
    results: Seq<ResultView>,
    found: Seq<ResultView>,
)
    requires
        search.searches_apps(indexed(files, locales)),
        provider.apps() == indexed(files, locales),
        search.pasts() == seq![provider.past()],
        query.len() > 0,
        search.answers(query, results),
        provider.offers(provider.past(), query, found),
    ensures
        results == at_most_max(ranked(found)),
{
    law_app_search(search, indexed(files, locales), search.pasts(), query, results);
}

/// Answering queries changes neither what a search is over nor what it may come to answer.
pub proof fn law_queries_leave_the_providers(
    before: Search,
    after: Search,
    apps: Seq<AppEntryView>,
    asked: Seq<char>,
    pasts: Seq<Seq<Seq<char>>>,
    query: Seq<char>,
    results: Seq<ResultView>,
)
    requires
        after.has_answered(before, asked),
    ensures
        before.searches_apps(apps) ==> after.searches_apps(apps),
        before.may_answer(pasts, query, results) ==> after.may_answer(pasts, query, results),
{
    if before.searches_apps(apps) {
        assert forall|past: Seq<Seq<char>>, query: Seq<char>, results: Seq<ResultView>|
            #[trigger] after.offers(0, past, query, results) <==> (results == matching_apps(
                apps,
                past,
                query,
            ) && scores_follow_matches(apps, past, query, apps.len())) by {
            assert(before.offers(0, past, query, results) <==> after.offers(
                0,
                past,
                query,
                results,
            ));
        }
    }
    if before.may_answer(pasts, query, results) && query.len() > 0 {
        let answers = choose|answers: Seq<Seq<ResultView>>|
            #![trigger before.offer_all(pasts, query, answers)]
            before.offer_all(pasts, query, answers) && results == best(answers.flatten());
        assert forall|i: int| 0 <= i < answers.len() implies after.offers(
            i,
            pasts[i],
            query,
            #[trigger] answers[i],
        ) by {
            assert(before.offers(i, pasts[i], query, answers[i]));
        }
        assert(after.offer_all(pasts, query, answers));
    }
}

/// No match is lost without reason: every application whose name fuzzy-matches the query is among
/// the results, or there are `MAX_RESULTS` others that all score at least as much.
pub proof fn law_every_match_is_found_or_outscored(
    search: Search,
    apps: Seq<AppEntryView>,
    query: Seq<char>,
    results: Seq<ResultView>,
    app: int,
)
    requires
        search.searches_apps(apps),
        search.answers(query, results),
        query.len() > 0,
        0 <= app < apps.len(),
        app_matches(apps[app], query),
    ensures
        ({
            let past = search.pasts()[0];
            ||| exists|k: int|
                0 <= k < results.len() && stands_for(
                    #[trigger] results[k],
                    apps,
                    past,
                    query,
                    app,
                )
            ||| {
                &&& results.len() == MAX_RESULTS
                &&& app_score(apps, past, query, app) is Some
                &&& forall|k: int|
                    0 <= k < results.len() ==> (#[trigger] results[k]).score >= app_score(
                        apps,
                        past,
                        query,
                        app,
                    )->0
            }
        }),
{
    broadcast use vstd::seq_lib::group_to_multiset_ensures;

    let past = search.pasts()[0];
    law_app_search(search, apps, search.pasts(), query, results);
    let found = matching_apps(apps, past, query);
    law_matching_apps_are_found(apps, past, query);
    let i = choose|i: int|
        0 <= i < found.len() && stands_for(#[trigger] found[i], apps, past, query, app);
    law_best_first(found);
    law_ranking_keeps_every_result(found);
    assert(found.to_multiset().count(found[i]) > 0);
    assert(ranked(found).to_multiset().count(found[i]) > 0);
    assert(ranked(found).contains(found[i]));
    let at = choose|at: int| 0 <= at < ranked(found).len() && ranked(found)[at] == found[i];
    if at < results.len() {
        assert(stands_for(results[at], apps, past, query, app));
    } else {
        assert forall|k: int| 0 <= k < results.len() implies (#[trigger] results[k]).score
            >= app_score(apps, past, query, app)->0 by {
            assert(ranked(found)[k].score >= ranked(found)[at].score);
        }
    }
}

/// A query never returns more than `MAX_RESULTS` results.
pub proof fn law_results_are_bounded(search: Search, query: Seq<char>, results: Seq<ResultView>)
    requires
        search.answers(query, results),
    ensures
        results.len() <= MAX_RESULTS,
{
    if query.len() > 0 {
        let answers = choose|answers: Seq<Seq<ResultView>>|
            #![trigger search.offer_all(search.pasts(), query, answers)]
            search.offer_all(search.pasts(), query, answers) && results == best(answers.flatten());
        law_only_the_best_are_kept(answers.flatten());
    }
}

/// A search speaks of all its providers, in their order.
proof fn law_providers_are_the_sources(
    search: Search,
    i: int,
    past: Seq<Seq<char>>,
    query: Seq<char>,
    results: Seq<ResultView>,
)
    requires
        0 <= i < search.sources@.len(),
    ensures
        search.pasts().len() == search.sources@.len(),
        search.pasts()[i] == search.sources@[i].provider.past(),
        search.offers(i, past, query, results) <==> search.sources@[i].provider.offers(
            past,
            query,
            results,
        ),
{
}

} // verus!
