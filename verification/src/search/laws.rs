//! What holds of the search, by the numbers.
use super::desktop::{
    app_in_file, app_matches, app_option_view, app_score, apps_view, command, command_view,
    command_words, described_app, entry_fields, files_view, history, indexed, is_field_code,
    matching_among, questions, stands_for, AppEntry, AppEntryView, DesktopAppProvider, DesktopFile,
    EntryFields, FieldsView, FileView,
};
use super::entry::{language, localized, parsed_keys};
use super::fuzzy::{fuzzy_matches, matchable, minds_case, skim_score, spells};
use super::ranking::{best, law_best_first, ranked};
use super::{
    law_app_search, law_every_match_is_found_or_outscored, results_view, Action, ActionView,
    ResultView, Search, SearchProvider, SearchResult,
};
use crate::text::{
    ascends, is_white_space, law_solid_text_is_one_word, law_white_space_separates_words,
    lemma_filter_member, lemma_flatten_push, list_view, lower_ascii, option_view, words,
};
use vstd::prelude::*;

verus! {

/// Names and queries of up to a million characters are within the limits of the matcher.
pub proof fn law_ordinary_names_can_be_matched(name: Seq<char>, query: Seq<char>)
    requires
        name.len() <= 1_000_000,
        query.len() <= 1_000_000,
    ensures
        matchable(name, query),
{
}

/// The limits of the matcher, by the numbers: 32 points per character that is found and one per
/// character that is passed over have to fit a 32-bit score, and 128 bytes per character of the name
/// one allocation.
pub proof fn law_limits_of_the_matcher(name: Seq<char>, query: Seq<char>)
    ensures
        matchable(name, query) <==> {
            &&& name.len() <= 1_879_048_192
            &&& name.len() <= 58_720_256 || query.len() <= 58_720_256
            &&& 128 * (name.len() + 1) <= isize::MAX
        },
{
}

/// A name that holds the characters of the query in their order matches it: the same characters,
/// or, for a query without ASCII capitals, their capitals.
pub proof fn law_spelled_names_match(name: Seq<char>, query: Seq<char>, at: Seq<int>)
    requires
        at.len() == query.len(),
        ascends(at),
        forall|i: int| 0 <= i < at.len() ==> 0 <= #[trigger] at[i] < name.len(),
        (forall|i: int| 0 <= i < at.len() ==> name[#[trigger] at[i]] == query[i]) || ((forall|i: int|
            0 <= i < query.len() ==> !(65 <= (#[trigger] query[i]) as u32 <= 90)) && forall|i: int|
            0 <= i < at.len() ==> name[#[trigger] at[i]] == query[i] || (65 <= name[at[i]] as u32
                <= 90 && name[at[i]] as u32 + 32 == query[i] as u32)),
    ensures
        fuzzy_matches(name, query),
{
    if !(forall|i: int| 0 <= i < at.len() ==> name[#[trigger] at[i]] == query[i]) {
        assert(!minds_case(query));
    }
    assert(spells(name, query, at));
}

/// A name that matches holds the characters of the query in their order: the very same ones where
/// the query has an ASCII capital, and else the same but for ASCII case.
pub proof fn law_matches_spell_the_query(name: Seq<char>, query: Seq<char>)
    requires
        fuzzy_matches(name, query),
    ensures
        exists|at: Seq<int>|
            #![trigger ascends(at)]
            {
                &&& at.len() == query.len()
                &&& ascends(at)
                &&& forall|i: int| 0 <= i < at.len() ==> 0 <= #[trigger] at[i] < name.len()
                &&& forall|i: int|
                    0 <= i < at.len() ==> name[#[trigger] at[i]] == query[i] || {
                        &&& forall|k: int|
                            0 <= k < query.len() ==> !(65 <= (#[trigger] query[k]) as u32 <= 90)
                        &&& 65 <= name[at[i]] as u32 <= 90
                        &&& name[at[i]] as u32 + 32 == query[i] as u32
                    }
            },
{
    let at = choose|at: Seq<int>| spells(name, query, at);
    assert(ascends(at));
    assert forall|i: int| 0 <= i < at.len() implies name[#[trigger] at[i]] == query[i] || {
        &&& forall|k: int| 0 <= k < query.len() ==> !(65 <= (#[trigger] query[k]) as u32 <= 90)
        &&& 65 <= name[at[i]] as u32 <= 90
        &&& name[at[i]] as u32 + 32 == query[i] as u32
    } by {
        if !minds_case(query) {
            assert forall|k: int| 0 <= k < query.len() implies !(65 <= (#[trigger] query[k]) as u32
                <= 90) by {}
            lemma_same_but_for_case(name[at[i]], query[i]);
        }
    }
}

/// Letters that lower to the same one, the second of which is small already.
proof fn lemma_same_but_for_case(name: char, query: char)
    requires
        lower_ascii(name) == lower_ascii(query),
        !(65 <= query as u32 <= 90),
    ensures
        name == query || (65 <= name as u32 <= 90 && name as u32 + 32 == query as u32),
{
}

/// What a command line starts: its program, followed by its arguments.
pub open spec fn started(command_line: Seq<char>) -> Seq<Seq<char>> {
    match command(command_line) {
        Some((program, args)) => seq![program] + args,
        None => Seq::empty(),
    }
}

/// A line that is one word starts that word as a program without arguments, unless it begins with a
/// percent sign: then it starts nothing.
pub proof fn law_one_word_is_a_program(word: Seq<char>)
    requires
        word.len() > 0,
        forall|i: int| 0 <= i < word.len() ==> !is_white_space(#[trigger] word[i]),
    ensures
        word[0] != '%' ==> command(word) == Some((word, Seq::<Seq<char>>::empty())),
        word[0] == '%' ==> command(word) is None,
{
    law_solid_text_is_one_word(word);
    lemma_started(word);
    lemma_kept_of_one(word);
    if word[0] != '%' {
        assert(command_words(word) =~= seq![word]);
        assert(command_words(word).drop_first() =~= Seq::<Seq<char>>::empty());
    } else {
        assert(command_words(word) =~= Seq::<Seq<char>>::empty());
    }
}

/// Lines are read word by word: what two lines with white space between them start is what the
/// first starts and then what the second does. An empty line starts nothing.
pub proof fn law_lines_start_their_words(first: Seq<char>, space: char, second: Seq<char>)
    requires
        is_white_space(space),
    ensures
        started(first.push(space) + second) == started(first) + started(second),
        command(Seq::<char>::empty()) is None,
{
    law_white_space_separates_words(first, space, second);
    let whole = first.push(space) + second;
    lemma_started(whole);
    lemma_started(first);
    lemma_started(second);
    lemma_started(Seq::empty());
    let keep = |word: Seq<char>| !is_field_code(word);
    Seq::filter_distributes_over_add(words(first), words(second), keep);
    reveal(Seq::filter);
}

/// A command loses nothing but field codes: the program and the arguments are the words of the line
/// that do not begin with a percent sign, as often as they occur and in their order; there is a
/// command wherever there is such a word.
pub proof fn law_commands_lose_field_codes_alone(command_line: Seq<char>)
    ensures
        started(command_line) == words(command_line).filter(
            |word: Seq<char>| !(word.len() > 0 && word[0] == '%'),
        ),
        command(command_line) is None <==> forall|i: int|
            0 <= i < words(command_line).len() ==> (#[trigger] words(command_line)[i]).len() > 0
                && words(command_line)[i][0] == '%',
{
    let keep = |word: Seq<char>| !is_field_code(word);
    let plain = |word: Seq<char>| !(word.len() > 0 && word[0] == '%');
    lemma_started(command_line);
    assert(keep =~= plain);
    let list = words(command_line);
    if command(command_line) is Some {
        lemma_filter_member(list, keep, 0);
    } else {
        assert forall|i: int| 0 <= i < list.len() implies (#[trigger] list[i]).len() > 0
            && list[i][0] == '%' by {
            if keep(list[i]) {
                lemma_filter_keeps(list, keep, i);
            }
        }
    }
}

/// What is started are the words that are kept.
proof fn lemma_started(command_line: Seq<char>)
    ensures
        started(command_line) == command_words(command_line),
        command(command_line) is None <==> command_words(command_line).len() == 0,
{
    let kept = command_words(command_line);
    if kept.len() > 0 {
        assert(seq![kept[0]] + kept.drop_first() =~= kept);
    } else {
        assert(kept =~= Seq::empty());
    }
}

/// Of a single word.
proof fn lemma_kept_of_one(word: Seq<char>)
    requires
        words(word) == seq![word],
        word.len() > 0,
    ensures
        command_words(word) == if word[0] == '%' {
            Seq::<Seq<char>>::empty()
        } else {
            seq![word]
        },
{
    reveal_with_fuel(Seq::filter, 2);
    reveal(Seq::filter);
    assert(seq![word].drop_last() =~= Seq::<Seq<char>>::empty());
    assert(command_words(word) =~= if word[0] == '%' {
        Seq::<Seq<char>>::empty()
    } else {
        seq![word]
    });
}

/// A filter keeps every member that passes it.
proof fn lemma_filter_keeps(list: Seq<Seq<char>>, keep: spec_fn(Seq<char>) -> bool, i: int)
    requires
        0 <= i < list.len(),
        keep(list[i]),
    ensures
        list.filter(keep).len() > 0,
    decreases list.len(),
{
    reveal(Seq::filter);
    if i < list.len() - 1 {
        assert(list.drop_last()[i] == list[i]);
        lemma_filter_keeps(list.drop_last(), keep, i);
    }
}

/// A desktop entry is listed where its type is `Application`, it is not hidden, and it has a name and
/// a command that starts something. It is listed under that name, with its comment or, without one,
/// its generic name, with its icon, and with what its command starts.
pub proof fn law_entries_are_listed(fields: FieldsView)
    ensures
        described_app(fields) is Some <==> {
            &&& fields.type_ == Some("Application"@)
            &&& !fields.no_display
            &&& fields.name is Some
            &&& fields.command_line is Some
            &&& started(fields.command_line->0).len() > 0
        },
        described_app(fields) matches Some(app) ==> {
            &&& Some(app.name) == fields.name
            &&& fields.comment is Some ==> app.subtitle == fields.comment
            &&& fields.comment is None ==> app.subtitle == fields.generic_name
            &&& app.icon == fields.icon
            &&& seq![app.program] + app.args == started(fields.command_line->0)
        },
{
    if fields.command_line is Some {
        lemma_started(fields.command_line->0);
    }
}

/// The keys of an entry that matter are those seven. Name, comment and generic name are read for the
/// user's locales, and without locales like the others: as they stand.
pub proof fn law_entry_keys(
    keys: Map<Seq<char>, (Seq<char>, Map<Seq<char>, Seq<char>>)>,
    locales: Seq<Seq<char>>,
)
    ensures
        ({
            let fields = entry_fields(keys, locales);
            &&& reads(keys, "Type"@, fields.type_)
            &&& reads(keys, "Exec"@, fields.command_line)
            &&& reads(keys, "Icon"@, fields.icon)
            &&& fields.no_display <==> keys.contains_key("NoDisplay"@) && keys["NoDisplay"@].0
                == "true"@
            &&& reads_for(keys, "Name"@, locales, fields.name)
            &&& reads_for(keys, "Comment"@, locales, fields.comment)
            &&& reads_for(keys, "GenericName"@, locales, fields.generic_name)
        }),
{
    law_localized_values(keys["Name"@].0, keys["Name"@].1, locales, 0);
    law_localized_values(keys["Comment"@].0, keys["Comment"@].1, locales, 0);
    law_localized_values(keys["GenericName"@].0, keys["GenericName"@].1, locales, 0);
}

/// `value` is what stands behind `key`, if the key is there.
pub open spec fn reads(
    keys: Map<Seq<char>, (Seq<char>, Map<Seq<char>, Seq<char>>)>,
    key: Seq<char>,
    value: Option<Seq<char>>,
) -> bool {
    &&& value is Some <==> keys.contains_key(key)
    &&& value is Some ==> value == Some(keys[key].0)
}

/// `value` is what stands behind `key` for a user of `locales`, if the key is there: what is given for
/// the first locale, if that has something, and the default where there are no locales.
pub open spec fn reads_for(
    keys: Map<Seq<char>, (Seq<char>, Map<Seq<char>, Seq<char>>)>,
    key: Seq<char>,
    locales: Seq<Seq<char>>,
    value: Option<Seq<char>>,
) -> bool {
    &&& value is Some <==> keys.contains_key(key)
    &&& value is Some && locales.len() == 0 ==> value == Some(keys[key].0)
    &&& value is Some && locales.len() > 0 && keys[key].1.contains_key(locales[0]) ==> value == Some(
        keys[key].1[locales[0]],
    )
    &&& value is Some ==> value == Some(localized(keys[key].0, keys[key].1, locales))
}

/// A localized value is that of the first locale that has one, or whose language has one; where none
/// has, it is the default.
pub proof fn law_localized_values(
    default: Seq<char>,
    values: Map<Seq<char>, Seq<char>>,
    locales: Seq<Seq<char>>,
    first: int,
)
    ensures
        (forall|i: int|
            0 <= i < locales.len() ==> !values.contains_key(#[trigger] locales[i]) && (language(
                locales[i],
            ) matches Some(language) ==> !values.contains_key(language))) ==> localized(
            default,
            values,
            locales,
        ) == default,
        0 <= first < locales.len() && (forall|i: int|
            0 <= i < first ==> !values.contains_key(#[trigger] locales[i]) && (language(
                locales[i],
            ) matches Some(language) ==> !values.contains_key(language))) ==> {
            &&& values.contains_key(locales[first]) ==> localized(default, values, locales)
                == values[locales[first]]
            &&& !values.contains_key(locales[first]) && language(locales[first]) is Some
                && values.contains_key(language(locales[first])->0) ==> localized(
                default,
                values,
                locales,
            ) == values[language(locales[first])->0]
        },
    decreases locales.len(),
{
    if locales.len() > 0 {
        let rest = locales.drop_first();
        assert(forall|i: int| 0 <= i < rest.len() ==> #[trigger] rest[i] == locales[i + 1]);
        law_localized_values(default, values, rest, first - 1);
        if first > 0 && (forall|i: int|
            0 <= i < first ==> !values.contains_key(#[trigger] locales[i]) && (language(
                locales[i],
            ) matches Some(language) ==> !values.contains_key(language))) {
            assert(!values.contains_key(locales[0]));
        }
        if forall|i: int|
            0 <= i < locales.len() ==> !values.contains_key(#[trigger] locales[i]) && (language(
                locales[i],
            ) matches Some(language) ==> !values.contains_key(language)) {
            assert(!values.contains_key(locales[0]));
        }
    }
}

/// The language of a locale is what stands before its first underscore.
pub proof fn law_languages(code: Seq<char>, country: Seq<char>)
    requires
        !code.contains('_'),
    ensures
        language(code) is None,
        language(code.push('_') + country) == Some(code),
{
    let locale = code.push('_') + country;
    code.index_of_first_ensures('_');
    locale.index_of_first_ensures('_');
    assert(locale[code.len() as int] == '_');
    assert(locale.contains('_'));
    let at = locale.index_of_first('_')->0;
    if at < code.len() {
        assert(code[at] == '_');
    }
    assert(locale.take(at) =~= code);
}

/// Files are indexed one by one, in their order: a file that cannot be parsed adds nothing, any
/// other what its keys describe.
pub proof fn law_files_are_indexed_one_by_one(
    files: Seq<FileView>,
    more: Seq<FileView>,
    file: FileView,
    locales: Seq<Seq<char>>,
)
    ensures
        indexed(files + more, locales) == indexed(files, locales) + indexed(more, locales),
        indexed(Seq::<FileView>::empty(), locales) == Seq::<AppEntryView>::empty(),
        match parsed_keys(file.path, file.text, locales) {
            Some(keys) => match described_app(entry_fields(keys, locales)) {
                Some(app) => indexed(seq![file], locales) == seq![app],
                None => indexed(seq![file], locales).len() == 0,
            },
            None => indexed(seq![file], locales).len() == 0,
        },
    decreases more.len(),
{
    if more.len() > 0 {
        law_files_are_indexed_one_by_one(files, more.drop_last(), file, locales);
        assert((files + more).drop_last() =~= files + more.drop_last());
        assert((files + more).last() == more.last());
    } else {
        assert(files + more =~= files);
    }
    assert(indexed(files + more, locales) =~= indexed(files, locales) + indexed(more, locales));
    reveal_with_fuel(indexed, 2);
    assert(seq![file].drop_last() =~= Seq::<FileView>::empty());
    if let Some(app) = app_in_file(file, locales) {
        assert(indexed(seq![file], locales) =~= seq![app]);
    }
}

/// What the matcher has been asked when it comes to application `app`: every name for every query
/// of `past`, and the names before it for this one.
pub open spec fn asked_before(
    apps: Seq<AppEntryView>,
    past: Seq<Seq<char>>,
    query: Seq<char>,
    app: int,
) -> Seq<(Seq<char>, Seq<char>)> {
    past.map_values(
        |asked: Seq<char>| Seq::new(apps.len(), |k: int| (apps[k].name, asked)),
    ).flatten() + Seq::new(app as nat, |k: int| (apps[k].name, query))
}

/// A provider goes through its applications in order. Each whose name the matcher scores, after all
/// that it was asked before, gives one result: with name, subtitle, icon, program and arguments of
/// the application and with that score. The others give none. A name is scored exactly where it
/// matches the query.
pub proof fn law_a_provider_scores_every_application(
    provider: DesktopAppProvider,
    past: Seq<Seq<char>>,
    query: Seq<char>,
    results: Seq<ResultView>,
)
    requires
        provider.offers(past, query, results),
        query.len() <= 1_000_000,
        forall|i: int|
            0 <= i < provider.apps().len() ==> (#[trigger] provider.apps()[i]).name.len()
                <= 1_000_000,
        forall|i: int| 0 <= i < past.len() ==> (#[trigger] past[i]).len() <= 1_000_000,
    ensures
        ({
            let apps = provider.apps();
            &&& forall|i: int|
                0 <= i < apps.len() ==> (skim_score(
                    asked_before(apps, past, query, i),
                    (#[trigger] apps[i]).name,
                    query,
                ) is Some <==> fuzzy_matches(apps[i].name, query))
            &&& exists|at: Seq<int>|
                #![trigger ascends(at)]
                {
                    &&& ascends(at)
                    &&& at.len() == results.len()
                    &&& forall|i: int|
                        #![trigger apps[i]]
                        at.contains(i) <==> 0 <= i < apps.len() && fuzzy_matches(apps[i].name, query)
                    &&& forall|k: int|
                        0 <= k < at.len() ==> {
                            let app = apps[#[trigger] at[k]];
                            &&& results[k].title == app.name
                            &&& results[k].subtitle == app.subtitle
                            &&& results[k].icon == app.icon
                            &&& results[k].action == (ActionView::Launch {
                                program: app.program,
                                args: app.args,
                            })
                            &&& skim_score(asked_before(apps, past, query, at[k]), app.name, query)
                                == Some(results[k].score)
                        }
                }
        }),
{
    let apps = provider.apps();
    assert forall|i: int| 0 <= i < apps.len() implies (app_score(apps, past, query, i)
        == skim_score(asked_before(apps, past, query, i), (#[trigger] apps[i]).name, query)) by {
        law_ordinary_names_can_be_matched(apps[i].name, query);
        lemma_asked(apps, past, query, i);
    }
    assert forall|i: int| 0 <= i < apps.len() implies (skim_score(
        asked_before(apps, past, query, i),
        (#[trigger] apps[i]).name,
        query,
    ) is Some <==> fuzzy_matches(apps[i].name, query)) by {
        law_ordinary_names_can_be_matched(apps[i].name, query);
        assert(app_score(apps, past, query, i) is Some <==> app_matches(apps[i], query));
    }
    lemma_found_at(apps, past, query, apps.len());
    let at = found_at(apps, past, query, apps.len());
    assert(ascends(at));
    assert forall|i: int| #![trigger apps[i]]
        at.contains(i) <==> 0 <= i < apps.len() && fuzzy_matches(apps[i].name, query) by {
        if 0 <= i < apps.len() {
            law_ordinary_names_can_be_matched(apps[i].name, query);
            assert(app_score(apps, past, query, i) is Some <==> app_matches(apps[i], query));
        }
    }
    assert forall|k: int| 0 <= k < at.len() implies {
        let app = apps[#[trigger] at[k]];
        &&& results[k].title == app.name
        &&& results[k].subtitle == app.subtitle
        &&& results[k].icon == app.icon
        &&& results[k].action == (ActionView::Launch { program: app.program, args: app.args })
        &&& skim_score(asked_before(apps, past, query, at[k]), app.name, query) == Some(
            results[k].score,
        )
    } by {
        assert(at.contains(at[k]));
        let app = apps[at[k]];
        assert(stands_for(results[k], apps, past, query, at[k]));
    }
}

/// The names that the matcher can take, each with the query.
pub open spec fn names_for(apps: Seq<AppEntryView>, query: Seq<char>) -> Seq<
    (Seq<char>, Seq<char>),
> {
    apps.filter(|app: AppEntryView| matchable(app.name, query)).map_values(
        |app: AppEntryView| (app.name, query),
    )
}

/// The same of names and queries of any length: those that are beyond the limits of the matcher are
/// neither asked for nor found.
pub proof fn law_a_provider_scores_what_can_be_matched(
    provider: DesktopAppProvider,
    past: Seq<Seq<char>>,
    query: Seq<char>,
    results: Seq<ResultView>,
)
    requires
        provider.offers(past, query, results),
    ensures
        ({
            let apps = provider.apps();
            let asked = past.map_values(|before: Seq<char>| names_for(apps, before)).flatten();
            exists|at: Seq<int>|
                #![trigger ascends(at)]
                {
                    &&& ascends(at)
                    &&& at.len() == results.len()
                    &&& forall|i: int|
                        #![trigger apps[i]]
                        at.contains(i) <==> 0 <= i < apps.len() && matchable(apps[i].name, query)
                            && fuzzy_matches(apps[i].name, query)
                    &&& forall|k: int|
                        0 <= k < at.len() ==> {
                            let app = apps[#[trigger] at[k]];
                            &&& results[k].title == app.name
                            &&& results[k].subtitle == app.subtitle
                            &&& results[k].icon == app.icon
                            &&& results[k].action == (ActionView::Launch {
                                program: app.program,
                                args: app.args,
                            })
                            &&& skim_score(
                                asked + names_for(apps.take(at[k]), query),
                                app.name,
                                query,
                            ) == Some(results[k].score)
                        }
                }
        }),
{
    let apps = provider.apps();
    let asked = past.map_values(|before: Seq<char>| names_for(apps, before)).flatten();
    lemma_names_asked(apps, past);
    lemma_found_at(apps, past, query, apps.len());
    let at = found_at(apps, past, query, apps.len());
    assert(ascends(at));
    assert forall|i: int| #![trigger apps[i]]
        at.contains(i) <==> 0 <= i < apps.len() && matchable(apps[i].name, query) && fuzzy_matches(
            apps[i].name,
            query,
        ) by {
        if 0 <= i < apps.len() {
            assert(app_score(apps, past, query, i) is Some <==> app_matches(apps[i], query));
        }
    }
    assert forall|k: int| 0 <= k < at.len() implies {
        let app = apps[#[trigger] at[k]];
        &&& results[k].title == app.name
        &&& results[k].subtitle == app.subtitle
        &&& results[k].icon == app.icon
        &&& results[k].action == (ActionView::Launch { program: app.program, args: app.args })
        &&& skim_score(asked + names_for(apps.take(at[k]), query), app.name, query) == Some(
            results[k].score,
        )
    } by {
        assert(stands_for(results[k], apps, past, query, at[k]));
        lemma_names_for(apps.take(at[k]), query);
    }
}

proof fn lemma_names_for(apps: Seq<AppEntryView>, query: Seq<char>)
    ensures
        questions(apps, query) == names_for(apps, query),
    decreases apps.len(),
{
    reveal(Seq::filter);
    if apps.len() > 0 {
        lemma_names_for(apps.drop_last(), query);
    }
    assert(questions(apps, query) =~= names_for(apps, query));
}

proof fn lemma_names_asked(apps: Seq<AppEntryView>, past: Seq<Seq<char>>)
    ensures
        history(apps, past) == past.map_values(
            |before: Seq<char>| names_for(apps, before),
        ).flatten(),
    decreases past.len(),
{
    let names = |before: Seq<char>| names_for(apps, before);
    if past.len() > 0 {
        let rest = past.drop_last();
        lemma_names_asked(apps, rest);
        lemma_names_for(apps, past.last());
        assert(past.map_values(names) =~= rest.map_values(names).push(names(past.last())));
        lemma_flatten_push(rest.map_values(names), names(past.last()));
    } else {
        assert(past.map_values(names) =~= Seq::empty());
        assert(past.map_values(names).flatten() =~= Seq::empty());
    }
}

/// What the matcher has been asked, in the two ways of saying it.
proof fn lemma_asked(apps: Seq<AppEntryView>, past: Seq<Seq<char>>, query: Seq<char>, app: int)
    requires
        0 <= app < apps.len(),
        query.len() <= 1_000_000,
        forall|i: int| 0 <= i < apps.len() ==> (#[trigger] apps[i]).name.len() <= 1_000_000,
        forall|i: int| 0 <= i < past.len() ==> (#[trigger] past[i]).len() <= 1_000_000,
    ensures
        history(apps, past) + questions(apps.take(app), query) == asked_before(
            apps,
            past,
            query,
            app,
        ),
{
    lemma_history(apps, past);
    let some = apps.take(app);
    assert(forall|i: int| 0 <= i < some.len() ==> #[trigger] some[i] == apps[i]);
    lemma_questions(some, query);
    assert(Seq::new(some.len(), |k: int| (some[k].name, query)) =~= Seq::new(
        app as nat,
        |k: int| (apps[k].name, query),
    ));
}

proof fn lemma_questions(apps: Seq<AppEntryView>, query: Seq<char>)
    requires
        query.len() <= 1_000_000,
        forall|i: int| 0 <= i < apps.len() ==> (#[trigger] apps[i]).name.len() <= 1_000_000,
    ensures
        questions(apps, query) == Seq::new(apps.len(), |k: int| (apps[k].name, query)),
    decreases apps.len(),
{
    if apps.len() > 0 {
        assert(apps[apps.len() - 1].name.len() <= 1_000_000);
        law_ordinary_names_can_be_matched(apps.last().name, query);
        lemma_questions(apps.drop_last(), query);
    }
    assert(questions(apps, query) =~= Seq::new(apps.len(), |k: int| (apps[k].name, query)));
}

proof fn lemma_history(apps: Seq<AppEntryView>, past: Seq<Seq<char>>)
    requires
        forall|i: int| 0 <= i < apps.len() ==> (#[trigger] apps[i]).name.len() <= 1_000_000,
        forall|i: int| 0 <= i < past.len() ==> (#[trigger] past[i]).len() <= 1_000_000,
    ensures
        history(apps, past) == past.map_values(
            |asked: Seq<char>| Seq::new(apps.len(), |k: int| (apps[k].name, asked)),
        ).flatten(),
    decreases past.len(),
{
    let names = |asked: Seq<char>| Seq::new(apps.len(), |k: int| (apps[k].name, asked));
    if past.len() > 0 {
        let before = past.drop_last();
        assert(past[past.len() - 1].len() <= 1_000_000);
        lemma_history(apps, before);
        lemma_questions(apps, past.last());
        assert(past.map_values(names) =~= before.map_values(names).push(names(past.last())));
        lemma_flatten_push(before.map_values(names), names(past.last()));
    } else {
        assert(past.map_values(names) =~= Seq::empty());
        assert(past.map_values(names).flatten() =~= Seq::empty());
    }
}

/// The places of the applications that are found.
spec fn found_at(
    apps: Seq<AppEntryView>,
    past: Seq<Seq<char>>,
    query: Seq<char>,
    count: nat,
) -> Seq<int>
    decreases count,
{
    if count == 0 {
        Seq::empty()
    } else if app_score(apps, past, query, count - 1) is Some {
        found_at(apps, past, query, (count - 1) as nat).push(count - 1)
    } else {
        found_at(apps, past, query, (count - 1) as nat)
    }
}

proof fn lemma_found_at(
    apps: Seq<AppEntryView>,
    past: Seq<Seq<char>>,
    query: Seq<char>,
    count: nat,
)
    ensures
        ({
            let at = found_at(apps, past, query, count);
            let found = matching_among(apps, past, query, count);
            &&& ascends(at)
            &&& at.len() == found.len()
            &&& forall|k: int| 0 <= k < at.len() ==> 0 <= #[trigger] at[k] < count
            &&& forall|i: int|
                #![trigger apps[i]]
                at.contains(i) <==> 0 <= i < count && app_score(apps, past, query, i) is Some
            &&& forall|k: int|
                0 <= k < at.len() ==> stands_for(found[k], apps, past, query, #[trigger] at[k])
        }),
    decreases count,
{
    if count > 0 {
        lemma_found_at(apps, past, query, (count - 1) as nat);
        let before = found_at(apps, past, query, (count - 1) as nat);
        let at = found_at(apps, past, query, count);
        let last = count - 1;
        assert forall|i: int| #![trigger apps[i]]
            at.contains(i) <==> 0 <= i < count && app_score(apps, past, query, i) is Some by {
            if before.contains(i) {
                assert(at[before.index_of(i)] == i);
            }
            if at.contains(i) && i != last {
                assert(before[at.index_of(i)] == i);
            }
            if i == last && app_score(apps, past, query, i) is Some {
                assert(at[before.len() as int] == i);
            }
            if at.contains(i) && i == last && app_score(apps, past, query, i) is None {
                assert(before[at.index_of(i)] < last);
            }
        }
        let found_before = matching_among(apps, past, query, (count - 1) as nat);
        let found = matching_among(apps, past, query, count);
        assert forall|k: int| 0 <= k < at.len() implies stands_for(
            found[k],
            apps,
            past,
            query,
            #[trigger] at[k],
        ) by {
            if k < before.len() {
                assert(at[k] == before[k]);
                assert(found[k] == found_before[k]);
            }
        }
    }
}

/// An application whose name holds the characters of the query in their order, both of ordinary
/// length, is found: it is among the results, with its name, subtitle, icon and command, or there
/// are twenty results that all score at least as much as it.
pub proof fn law_an_ordinary_match_is_found(
    search: Search,
    apps: Seq<AppEntryView>,
    query: Seq<char>,
    results: Seq<ResultView>,
    app: int,
    at: Seq<int>,
)
    requires
        search.searches_apps(apps),
        search.answers(query, results),
        0 < query.len() <= 1_000_000,
        0 <= app < apps.len(),
        apps[app].name.len() <= 1_000_000,
        at.len() == query.len(),
        ascends(at),
        forall|i: int|
            0 <= i < at.len() ==> 0 <= #[trigger] at[i] < apps[app].name.len()
                && apps[app].name[at[i]] == query[i],
    ensures
        ({
            ||| exists|k: int|
                0 <= k < results.len() && (#[trigger] results[k]).title == apps[app].name
                    && results[k].subtitle == apps[app].subtitle && results[k].icon
                    == apps[app].icon && results[k].action == (ActionView::Launch {
                    program: apps[app].program,
                    args: apps[app].args,
                })
            ||| results.len() == 20 && exists|past: Seq<(Seq<char>, Seq<char>)>|
                (#[trigger] skim_score(past, apps[app].name, query)) is Some && forall|k: int|
                    0 <= k < results.len() ==> (#[trigger] results[k]).score >= skim_score(
                        past,
                        apps[app].name,
                        query,
                    )->0
        }),
{
    law_ordinary_names_can_be_matched(apps[app].name, query);
    law_spelled_names_match(apps[app].name, query, at);
    law_every_match_is_found_or_outscored(search, apps, query, results, app);
    let past = search.pasts()[0];
    if exists|k: int|
        0 <= k < results.len() && stands_for(#[trigger] results[k], apps, past, query, app) {
        let k = choose|k: int|
            0 <= k < results.len() && stands_for(#[trigger] results[k], apps, past, query, app);
        assert(results[k].title == apps[app].name);
    } else {
        let before = history(apps, past) + questions(apps.take(app), query);
        assert(skim_score(before, apps[app].name, query) == Some(
            app_score(apps, past, query, app)->0,
        ));
    }
}

/// Every result is that of an application whose name matches the query.
pub proof fn law_results_are_matching_applications(
    search: Search,
    apps: Seq<AppEntryView>,
    query: Seq<char>,
    results: Seq<ResultView>,
    k: int,
)
    requires
        search.searches_apps(apps),
        search.answers(query, results),
        0 <= k < results.len(),
    ensures
        query.len() > 0,
        exists|i: int|
            0 <= i < apps.len() && fuzzy_matches((#[trigger] apps[i]).name, query)
                && results[k].title == apps[i].name && results[k].subtitle == apps[i].subtitle
                && results[k].icon == apps[i].icon && results[k].action == (ActionView::Launch {
                program: apps[i].program,
                args: apps[i].args,
            }),
{
    law_app_search(search, apps, search.pasts(), query, results);
    let past = search.pasts()[0];
    let i = choose|i: int|
        0 <= i < apps.len() && app_matches(#[trigger] apps[i], query) && stands_for(
            results[k],
            apps,
            past,
            query,
            i,
        );
    assert(fuzzy_matches(apps[i].name, query));
}

/// A query returns the first twenty of the ranked results, or all of fewer.
pub proof fn law_twenty_results(results: Seq<ResultView>)
    ensures
        ranked(results).len() == results.len(),
        results.len() <= 20 ==> best(results) == ranked(results),
        results.len() > 20 ==> best(results) == ranked(results).take(20),
{
    law_best_first(results);
}

/// Each provider remembers a query that is not empty, and no other.
pub proof fn law_queries_are_remembered(before: Search, after: Search, query: Seq<char>, i: int)
    requires
        after.has_answered(before, query),
        0 <= i < before.pasts().len(),
    ensures
        after.pasts().len() == before.pasts().len(),
        query.len() == 0 ==> after.pasts()[i] == before.pasts()[i],
        query.len() > 0 ==> after.pasts()[i] == before.pasts()[i].push(query),
{
}

/// The views of results, entries and files hold just what these hold.
pub proof fn law_search_views(
    action: Action,
    result: SearchResult,
    app: AppEntry,
    fields: EntryFields,
    file: DesktopFile,
)
    ensures
        match (action, action@) {
            (
                Action::Launch { program, args },
                ActionView::Launch { program: name, args: list },
            ) => name == program@ && list == list_view(args@),
        },
        result@.title == result.title@ && result@.score == result.score,
        result@.subtitle == option_view(result.subtitle),
        result@.icon == option_view(result.icon),
        result@.action == result.action@,
        app@.name == app.name@ && app@.program == app.program@,
        app@.subtitle == option_view(app.subtitle) && app@.icon == option_view(app.icon),
        app@.args == list_view(app.args@),
        fields@.type_ == option_view(fields.type_) && fields@.no_display == fields.no_display,
        fields@.name == option_view(fields.name),
        fields@.command_line == option_view(fields.command_line),
        fields@.comment == option_view(fields.comment),
        fields@.generic_name == option_view(fields.generic_name),
        fields@.icon == option_view(fields.icon),
        file@.path == file.path@ && file@.text == file.text@,
{
}

/// The views of lists hold the views of their members, in order.
pub proof fn law_search_list_views(
    results: Seq<SearchResult>,
    apps: Seq<AppEntry>,
    files: Seq<DesktopFile>,
    app: Option<AppEntry>,
    command: Option<(String, Vec<String>)>,
    i: int,
)
    ensures
        results_view(results).len() == results.len(),
        0 <= i < results.len() ==> results_view(results)[i] == results[i]@,
        apps_view(apps).len() == apps.len(),
        0 <= i < apps.len() ==> apps_view(apps)[i] == apps[i]@,
        files_view(files).len() == files.len(),
        0 <= i < files.len() ==> files_view(files)[i] == files[i]@,
        app is Some <==> app_option_view(app) is Some,
        app matches Some(app) ==> app_option_view(Some(app)) == Some(app@),
        command is Some <==> command_view(command) is Some,
        command matches Some(pair) ==> command_view(command) == Some(
            (pair.0@, list_view(pair.1@)),
        ),
{
}

} // verus!
