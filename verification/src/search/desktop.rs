//! Installed-application provider: indexes `.desktop` files once at startup and
//! fuzzy-matches the query against application names.
use super::entry::{
    entry_comment, entry_exec, entry_generic_name, entry_icon, entry_keys, entry_name,
    entry_no_display, entry_type, localized_value, parse_entry, parsed_keys, plain_value,
};
use super::fuzzy::{
    can_match, fuzzy_matches, fuzzy_score, matchable, matched, new_matcher, skim_score,
};
use super::{results_view, Action, ActionView, ResultView, SearchProvider, SearchResult};
use crate::text::{
    copy_list, copy_option, law_words_are_solid, lemma_filter_member, list_view, option_view,
    same_text, split_words, words,
};
use freedesktop_desktop_entry::DesktopEntry;
use fuzzy_matcher::skim::SkimMatcherV2;
use std::marker::PhantomData;
use std::rc::Rc;
use vstd::prelude::*;

verus! {

/// A `.desktop` file as it was read: where it lies and what it holds.
pub struct DesktopFile {
    pub path: String,
    pub text: String,
}

/// What a `DesktopFile` holds.
pub struct FileView {
    pub path: Seq<char>,
    pub text: Seq<char>,
}

impl View for DesktopFile {
    type V = FileView;

    open spec fn view(&self) -> FileView {
        FileView { path: self.path@, text: self.text@ }
    }
}

/// What a list of files holds.
pub open spec fn files_view(files: Seq<DesktopFile>) -> Seq<FileView> {
    files.map_values(|file: DesktopFile| file@)
}

/// The keys of a desktop entry that decide whether and how an application is listed.
pub struct EntryFields {
    pub type_: Option<String>,
    pub no_display: bool,
    pub name: Option<String>,
    pub command_line: Option<String>,
    pub comment: Option<String>,
    pub generic_name: Option<String>,
    pub icon: Option<String>,
}

/// What an `EntryFields` holds.
pub struct FieldsView {
    pub type_: Option<Seq<char>>,
    pub no_display: bool,
    pub name: Option<Seq<char>>,
    pub command_line: Option<Seq<char>>,
    pub comment: Option<Seq<char>>,
    pub generic_name: Option<Seq<char>>,
    pub icon: Option<Seq<char>>,
}

impl View for EntryFields {
    type V = FieldsView;

    open spec fn view(&self) -> FieldsView {
        FieldsView {
            type_: option_view(self.type_),
            no_display: self.no_display,
            name: option_view(self.name),
            command_line: option_view(self.command_line),
            comment: option_view(self.comment),
            generic_name: option_view(self.generic_name),
            icon: option_view(self.icon),
        }
    }
}

/// An application that can be searched for and launched.
pub struct AppEntry {
    pub name: String,
    pub subtitle: Option<String>,
    pub icon: Option<String>,
    pub program: String,
    pub args: Vec<String>,
}

/// What an `AppEntry` holds.
pub struct AppEntryView {
    pub name: Seq<char>,
    pub subtitle: Option<Seq<char>>,
    pub icon: Option<Seq<char>>,
    pub program: Seq<char>,
    pub args: Seq<Seq<char>>,
}

impl View for AppEntry {
    type V = AppEntryView;

    open spec fn view(&self) -> AppEntryView {
        AppEntryView {
            name: self.name@,
            subtitle: option_view(self.subtitle),
            icon: option_view(self.icon),
            program: self.program@,
            args: list_view(self.args@),
        }
    }
}

/// What a list of applications holds.
pub open spec fn apps_view(apps: Seq<AppEntry>) -> Seq<AppEntryView> {
    apps.map_values(|app: AppEntry| app@)
}

/// Whether a word of a command line is a field code (%U, %f, ...).
pub open spec fn is_field_code(word: Seq<char>) -> bool {
    word.len() > 0 && word[0] == '%'
}

/// The words of a command line without its field codes.
pub open spec fn command_words(command_line: Seq<char>) -> Seq<Seq<char>> {
    words(command_line).filter(|word: Seq<char>| !is_field_code(word))
}

/// The program that a command line starts and the arguments it passes; `None` where nothing but
/// field codes is there.
pub open spec fn command(command_line: Seq<char>) -> Option<(Seq<char>, Seq<Seq<char>>)> {
    if command_words(command_line).len() == 0 {
        None
    } else {
        Some((command_words(command_line)[0], command_words(command_line).drop_first()))
    }
}

/// What a `(program, arguments)` pair holds.
pub open spec fn command_view(command: Option<(String, Vec<String>)>) -> Option<
    (Seq<char>, Seq<Seq<char>>),
> {
    match command {
        Some((program, args)) => Some((program@, list_view(args@))),
        None => None,
    }
}

/// Splits a command line into program and arguments. Exec may contain field codes (%U, %f, ...);
/// they are dropped, the rest is kept.
pub fn parse_command(command_line: &str) -> (parsed: Option<(String, Vec<String>)>)
    ensures
        command_view(parsed) == command(command_line@),
{
    let all: Vec<String> = split_words(command_line);
    let ghost keep = |word: Seq<char>| !is_field_code(word);
    let mut program: Option<String> = None;
    let mut args: Vec<String> = Vec::new();
    let mut i: usize = 0;
    proof {
        reveal(Seq::filter);
    }
    while i < all.len()
        invariant
            list_view(all@) == words(command_line@),
            keep == (|word: Seq<char>| !is_field_code(word)),
            i <= all.len(),
            ({
                let kept = list_view(all@).take(i as int).filter(keep);
                match program {
                    Some(program) => kept.len() > 0 && program@ == kept[0] && list_view(args@)
                        == kept.drop_first(),
                    None => kept.len() == 0 && args@.len() == 0,
                }
            }),
        decreases all.len() - i,
    {
        let ghost before = list_view(all@).take(i as int);
        let ghost after = list_view(all@).take(i + 1);
        let ghost word = all@[i as int]@;
        proof {
            reveal(Seq::filter);
            assert(after.drop_last() =~= before);
            assert(after.last() == word);
            assert(list_view(all@)[i as int] == word);
            law_words_are_solid(command_line@, i as int);
        }
        let first: char = all[i].as_str().get_char(0);
        if first != '%' {
            assert(after.filter(keep) =~= before.filter(keep).push(word));
            let copy: String = all[i].clone();
            match &program {
                Some(_) => {
                    let ghost old_args = args@;
                    args.push(copy);
                    assert(list_view(args@) =~= list_view(old_args).push(word));
                    assert(after.filter(keep).drop_first() =~= before.filter(keep).drop_first().push(
                        word,
                    ));
                },
                None => {
                    program = Some(copy);
                    assert(after.filter(keep).drop_first() =~= list_view(args@));
                },
            }
        } else {
            assert(after.filter(keep) =~= before.filter(keep));
        }
        i = i + 1;
    }
    assert(list_view(all@).take(all.len() as int) =~= words(command_line@));
    match program {
        Some(program) => Some((program, args)),
        None => None,
    }
}

/// No word of a command is a field code, and none is empty.
pub proof fn law_commands_have_no_field_codes(command_line: Seq<char>)
    requires
        command(command_line) is Some,
    ensures
        !is_field_code((command(command_line)->0).0),
        (command(command_line)->0).0.len() > 0,
        forall|i: int|
            0 <= i < (command(command_line)->0).1.len() ==> {
                &&& !is_field_code(#[trigger] (command(command_line)->0).1[i])
                &&& (command(command_line)->0).1[i].len() > 0
            },
{
    let keep = |word: Seq<char>| !is_field_code(word);
    assert forall|i: int| 0 <= i < command_words(command_line).len() implies !is_field_code(
        #[trigger] command_words(command_line)[i],
    ) && command_words(command_line)[i].len() > 0 by {
        lemma_filter_member(words(command_line), keep, i);
        let k = choose|k: int|
            0 <= k < words(command_line).len() && words(command_line)[k] == command_words(
                command_line,
            )[i];
        law_words_are_solid(command_line, k);
    }
    assert forall|i: int| 0 <= i < (command(command_line)->0).1.len() implies !is_field_code(
        #[trigger] (command(command_line)->0).1[i],
    ) && (command(command_line)->0).1[i].len() > 0 by {
        assert((command(command_line)->0).1[i] == command_words(command_line)[i + 1]);
    }
}

/// The application that a desktop entry describes; `None` where it is not one, is not to be
/// shown, or lacks a name or a command.
pub open spec fn described_app(fields: FieldsView) -> Option<AppEntryView> {
    if fields.type_ != Some("Application"@) || fields.no_display {
        None
    } else if fields.name is None || fields.command_line is None || command(
        fields.command_line->0,
    ) is None {
        None
    } else {
        Some(
            AppEntryView {
                name: fields.name->0,
                subtitle: if fields.comment is Some {
                    fields.comment
                } else {
                    fields.generic_name
                },
                icon: fields.icon,
                program: (command(fields.command_line->0)->0).0,
                args: (command(fields.command_line->0)->0).1,
            },
        )
    }
}

/// What an optional application holds.
pub open spec fn app_option_view(app: Option<AppEntry>) -> Option<AppEntryView> {
    match app {
        Some(app) => Some(app@),
        None => None,
    }
}

impl EntryFields {
    /// The application that these keys describe, if any.
    pub fn into_app(self) -> (app: Option<AppEntry>)
        ensures
            app_option_view(app) == described_app(self@),
    {
        let is_application: bool = match &self.type_ {
            Some(type_) => same_text(type_.as_str(), "Application"),
            None => false,
        };
        if !is_application || self.no_display {
            return None;
        }
        match (self.name, self.command_line) {
            (Some(name), Some(command_line)) => match parse_command(command_line.as_str()) {
                Some((program, args)) => {
                    let subtitle: Option<String> = match self.comment {
                        Some(comment) => Some(comment),
                        None => self.generic_name,
                    };
                    Some(AppEntry { name, subtitle, icon: self.icon, program, args })
                },
                None => None,
            },
            _ => None,
        }
    }
}

/// The keys that matter here, for a user of `locales`.
pub open spec fn entry_fields(
    keys: Map<Seq<char>, (Seq<char>, Map<Seq<char>, Seq<char>>)>,
    locales: Seq<Seq<char>>,
) -> FieldsView {
    FieldsView {
        type_: plain_value(keys, "Type"@),
        no_display: plain_value(keys, "NoDisplay"@) == Some("true"@),
        name: localized_value(keys, "Name"@, locales),
        command_line: plain_value(keys, "Exec"@),
        comment: localized_value(keys, "Comment"@, locales),
        generic_name: localized_value(keys, "GenericName"@, locales),
        icon: plain_value(keys, "Icon"@),
    }
}

/// Reads the keys that matter here from a parsed file.
fn read_fields(entry: &DesktopEntry, locales: &[String]) -> (fields: EntryFields)
    ensures
        fields@ == entry_fields(entry_keys(*entry), list_view(locales@)),
{
    EntryFields {
        type_: entry_type(entry),
        no_display: entry_no_display(entry),
        name: entry_name(entry, locales),
        command_line: entry_exec(entry),
        comment: entry_comment(entry, locales),
        generic_name: entry_generic_name(entry, locales),
        icon: entry_icon(entry),
    }
}

/// The application that a `.desktop` file describes, if it can be parsed and describes one.
pub open spec fn app_in_file(file: FileView, locales: Seq<Seq<char>>) -> Option<AppEntryView> {
    match parsed_keys(file.path, file.text, locales) {
        Some(keys) => described_app(entry_fields(keys, locales)),
        None => None,
    }
}

/// The applications that a list of `.desktop` files describes, in the order of the files.
pub open spec fn indexed(files: Seq<FileView>, locales: Seq<Seq<char>>) -> Seq<AppEntryView>
    decreases files.len(),
{
    if files.len() == 0 {
        Seq::empty()
    } else {
        let before = indexed(files.drop_last(), locales);
        match app_in_file(files.last(), locales) {
            Some(app) => before.push(app),
            None => before,
        }
    }
}

/// The result that stands for an application which matches with the given score.
pub open spec fn result_for(app: AppEntryView, score: i64) -> ResultView {
    ResultView {
        title: app.name,
        subtitle: app.subtitle,
        icon: app.icon,
        score,
        action: ActionView::Launch { program: app.program, args: app.args },
    }
}

/// What the matcher is asked when `apps` are searched for `query`: each name that it can take.
pub open spec fn questions(apps: Seq<AppEntryView>, query: Seq<char>) -> Seq<
    (Seq<char>, Seq<char>),
>
    decreases apps.len(),
{
    if apps.len() == 0 {
        Seq::empty()
    } else {
        let before = questions(apps.drop_last(), query);
        if matchable(apps.last().name, query) {
            before.push((apps.last().name, query))
        } else {
            before
        }
    }
}

/// What the matcher has been asked after `apps` were searched for the queries of `past`.
pub open spec fn history(apps: Seq<AppEntryView>, past: Seq<Seq<char>>) -> Seq<
    (Seq<char>, Seq<char>),
>
    decreases past.len(),
{
    if past.len() == 0 {
        Seq::empty()
    } else {
        history(apps, past.drop_last()) + questions(apps, past.last())
    }
}

/// The score of application `app` as `query` is searched for after the queries of `past`: the
/// matcher has seen the applications before it by then. A name that is too much for the matcher
/// has none.
pub open spec fn app_score(
    apps: Seq<AppEntryView>,
    past: Seq<Seq<char>>,
    query: Seq<char>,
    app: int,
) -> Option<i64> {
    if matchable(apps[app].name, query) {
        skim_score(
            history(apps, past) + questions(apps.take(app), query),
            apps[app].name,
            query,
        )
    } else {
        None
    }
}

/// The results for those of the first `count` applications whose name matches `query`, in order.
pub open spec fn matching_among(
    apps: Seq<AppEntryView>,
    past: Seq<Seq<char>>,
    query: Seq<char>,
    count: nat,
) -> Seq<ResultView>
    decreases count,
{
    if count == 0 {
        Seq::empty()
    } else {
        let before = matching_among(apps, past, query, (count - 1) as nat);
        match app_score(apps, past, query, count - 1) {
            Some(score) => before.push(result_for(apps[count - 1], score)),
            None => before,
        }
    }
}

/// The results for those of `apps` whose name matches `query`, in the order of `apps`, after the
/// queries of `past`.
pub open spec fn matching_apps(
    apps: Seq<AppEntryView>,
    past: Seq<Seq<char>>,
    query: Seq<char>,
) -> Seq<ResultView> {
    matching_among(apps, past, query, apps.len())
}

/// Whether an application is one that `query` finds: its name fuzzy-matches it, within the limits
/// of the matcher.
pub open spec fn app_matches(app: AppEntryView, query: Seq<char>) -> bool {
    matchable(app.name, query) && fuzzy_matches(app.name, query)
}

/// Whether, of each of the first `count` applications, the matcher scores the name exactly where
/// it matches `query`.
pub open spec fn scores_follow_matches(
    apps: Seq<AppEntryView>,
    past: Seq<Seq<char>>,
    query: Seq<char>,
    count: nat,
) -> bool {
    forall|i: int|
        0 <= i < count ==> (app_score(apps, past, query, i) is Some <==> app_matches(
            #[trigger] apps[i],
            query,
        ))
}

/// Whether `result` stands for application `app` as an answer to `query`.
pub open spec fn stands_for(
    result: ResultView,
    apps: Seq<AppEntryView>,
    past: Seq<Seq<char>>,
    query: Seq<char>,
    app: int,
) -> bool {
    app_score(apps, past, query, app) == Some(result.score) && result == result_for(
        apps[app],
        result.score,
    )
}

/// Whether `result` stands for one of `apps` that `query` finds.
pub open spec fn stands_for_match(
    result: ResultView,
    apps: Seq<AppEntryView>,
    past: Seq<Seq<char>>,
    query: Seq<char>,
) -> bool {
    exists|i: int|
        0 <= i < apps.len() && app_matches(#[trigger] apps[i], query) && stands_for(
            result,
            apps,
            past,
            query,
            i,
        )
}

/// The applications that a query finds are those whose name fuzzy-matches it: every result stands
/// for such an application, and every such application has its result.
pub proof fn law_matching_apps_are_found(
    apps: Seq<AppEntryView>,
    past: Seq<Seq<char>>,
    query: Seq<char>,
)
    requires
        scores_follow_matches(apps, past, query, apps.len()),
    ensures
        forall|k: int|
            0 <= k < matching_apps(apps, past, query).len() ==> stands_for_match(
                #[trigger] matching_apps(apps, past, query)[k],
                apps,
                past,
                query,
            ),
        forall|i: int|
            0 <= i < apps.len() && app_matches(#[trigger] apps[i], query) ==> exists|k: int|
                0 <= k < matching_apps(apps, past, query).len() && stands_for(
                    #[trigger] matching_apps(apps, past, query)[k],
                    apps,
                    past,
                    query,
                    i,
                ),
{
    let found = matching_among(apps, past, query, apps.len());
    lemma_matching_among(apps, past, query, apps.len());
    assert forall|i: int| 0 <= i < apps.len() && app_matches(
        #[trigger] apps[i],
        query,
    ) implies exists|k: int|
        0 <= k < matching_apps(apps, past, query).len() && stands_for(
            #[trigger] matching_apps(apps, past, query)[k],
            apps,
            past,
            query,
            i,
        ) by {
        let k = choose|k: int|
            0 <= k < found.len() && stands_for(#[trigger] found[k], apps, past, query, i);
        assert(stands_for(matching_apps(apps, past, query)[k], apps, past, query, i));
    }
}

/// The same of the first applications.
proof fn lemma_matching_among(
    apps: Seq<AppEntryView>,
    past: Seq<Seq<char>>,
    query: Seq<char>,
    count: nat,
)
    requires
        count <= apps.len(),
        scores_follow_matches(apps, past, query, apps.len()),
    ensures
        forall|k: int|
            0 <= k < matching_among(apps, past, query, count).len() ==> stands_for_match(
                #[trigger] matching_among(apps, past, query, count)[k],
                apps,
                past,
                query,
            ),
        forall|i: int|
            0 <= i < count && app_matches(#[trigger] apps[i], query) ==> exists|k: int|
                0 <= k < matching_among(apps, past, query, count).len() && stands_for(
                    #[trigger] matching_among(apps, past, query, count)[k],
                    apps,
                    past,
                    query,
                    i,
                ),
    decreases count,
{
    if count > 0 {
        let found = matching_among(apps, past, query, count);
        let before = matching_among(apps, past, query, (count - 1) as nat);
        let last = count - 1;
        lemma_matching_among(apps, past, query, (count - 1) as nat);
        assert(app_score(apps, past, query, last) is Some <==> app_matches(apps[last], query));
        assert forall|k: int| 0 <= k < found.len() implies stands_for_match(
            #[trigger] found[k],
            apps,
            past,
            query,
        ) by {
            if k < before.len() {
                assert(found[k] == before[k]);
            } else {
                assert(stands_for(found[k], apps, past, query, last));
            }
        }
        assert forall|i: int| 0 <= i < count && app_matches(
            #[trigger] apps[i],
            query,
        ) implies exists|k: int|
            0 <= k < found.len() && stands_for(#[trigger] found[k], apps, past, query, i) by {
            if i < last {
                let k = choose|k: int|
                    0 <= k < before.len() && stands_for(#[trigger] before[k], apps, past, query, i);
                assert(found[k] == before[k]);
            } else {
                assert(stands_for(found[before.len() as int], apps, past, query, last));
            }
        }
    }
}

/// Only applications that are meant to be shown, and that name a program to start, are indexed.
pub proof fn law_indexed_apps_are_shown_applications(
    files: Seq<FileView>,
    locales: Seq<Seq<char>>,
    app: int,
)
    requires
        0 <= app < indexed(files, locales).len(),
    ensures
        exists|i: int|
            0 <= i < files.len() && describes(
                #[trigger] files[i],
                locales,
                indexed(files, locales)[app],
            ),
    decreases files.len(),
{
    if files.len() > 0 {
        let before = indexed(files.drop_last(), locales);
        if app < before.len() {
            law_indexed_apps_are_shown_applications(files.drop_last(), locales, app);
            let i = choose|i: int|
                0 <= i < files.drop_last().len() && describes(
                    #[trigger] files.drop_last()[i],
                    locales,
                    before[app],
                );
            assert(files[i] == files.drop_last()[i]);
            assert(describes(files[i], locales, indexed(files, locales)[app]));
        } else {
            assert(describes(files[files.len() - 1], locales, indexed(files, locales)[app]));
        }
    }
}

/// `file` is an entry of type `Application` that is not hidden from menus, has the name of `app`,
/// and whose command starts its program.
pub open spec fn describes(file: FileView, locales: Seq<Seq<char>>, app: AppEntryView) -> bool {
    match parsed_keys(file.path, file.text, locales) {
        Some(keys) => {
            &&& plain_value(keys, "Type"@) == Some("Application"@)
            &&& plain_value(keys, "NoDisplay"@) != Some("true"@)
            &&& localized_value(keys, "Name"@, locales) == Some(app.name)
            &&& plain_value(keys, "Exec"@) matches Some(line) && command(line) == Some(
                (app.program, app.args),
            )
        },
        None => false,
    }
}

impl AppEntry {
    /// The result that stands for this application, given the score of its name.
    pub fn result(&self, score: i64) -> (result: SearchResult)
        ensures
            result@ == result_for(self@, score),
    {
        SearchResult {
            title: self.name.clone(),
            subtitle: copy_option(&self.subtitle),
            icon: copy_option(&self.icon),
            score,
            action: Action::Launch { program: self.program.clone(), args: copy_list(&self.args) },
        }
    }
}

/// The installed applications.
pub struct DesktopAppProvider {
    apps: Vec<AppEntry>,
    matcher: SkimMatcherV2,
    /// The queries that were answered so far.
    answered: Ghost<Seq<Seq<char>>>,
    /// Keeps the matcher on one thread: it has other working memory on another.
    one_thread: PhantomData<Rc<()>>,
}

impl DesktopAppProvider {
    /// The applications, in the order in which they were found.
    pub closed spec fn apps(&self) -> Seq<AppEntryView> {
        apps_view(self.apps@)
    }

    /// Indexes the applications that `files` describe, for a user of `locales`.
    pub fn load(files: &[DesktopFile], locales: &[String]) -> (provider: Self)
        ensures
            provider.wf(),
            provider.apps() == indexed(files_view(files@), list_view(locales@)),
            provider.past() == Seq::<Seq<char>>::empty(),
    {
        let mut apps: Vec<AppEntry> = Vec::new();
        let mut i: usize = 0;
        while i < files.len()
            invariant
                i <= files.len(),
                apps_view(apps@) == indexed(files_view(files@).take(i as int), list_view(locales@)),
            decreases files.len() - i,
        {
            let file: &DesktopFile = &files[i];
            let ghost after = files_view(files@).take(i + 1);
            let ghost old_apps = apps@;
            proof {
                assert(after.drop_last() =~= files_view(files@).take(i as int));
                assert(after.last() == file@);
            }
            match parse_entry(file.path.as_str(), file.text.as_str(), locales) {
                Ok(entry) => {
                    let fields: EntryFields = read_fields(&entry, locales);
                    match fields.into_app() {
                        Some(app) => {
                            apps.push(app);
                            assert(apps_view(apps@) =~= apps_view(old_apps).push(app@));
                        },
                        None => {},
                    }
                },
                Err(_) => {},
            }
            i = i + 1;
        }
        assert(files_view(files@).take(files.len() as int) =~= files_view(files@));
        DesktopAppProvider {
            apps,
            matcher: new_matcher(),
            answered: Ghost(Seq::empty()),
            one_thread: PhantomData,
        }
    }

    /// The number of applications.
    pub fn len(&self) -> (count: usize)
        ensures
            count == self.apps().len(),
    {
        self.apps.len()
    }
}

impl SearchProvider for DesktopAppProvider {
    /// The matcher was asked what the queries gave rise to.
    closed spec fn wf(&self) -> bool {
        matched(self.matcher) == history(self.apps(), self.answered@)
    }

    closed spec fn past(&self) -> Seq<Seq<char>> {
        self.answered@
    }

    open spec fn offers(
        &self,
        past: Seq<Seq<char>>,
        query: Seq<char>,
        results: Seq<ResultView>,
    ) -> bool {
        results == matching_apps(self.apps(), past, query) && scores_follow_matches(
            self.apps(),
            past,
            query,
            self.apps().len(),
        )
    }

    fn search(&mut self, query: &str) -> (results: Vec<SearchResult>)
        ensures
            final(self).apps() == old(self).apps(),
    {
        let ghost apps = self.apps();
        let ghost past = self.answered@;
        let mut results: Vec<SearchResult> = Vec::new();
        let mut i: usize = 0;
        assert(history(apps, past) + questions(apps.take(0), query@) =~= history(apps, past));
        while i < self.apps.len()
            invariant
                i <= self.apps.len(),
                self.apps() == apps,
                self.answered@ == past,
                matched(self.matcher) == history(apps, past) + questions(
                    apps.take(i as int),
                    query@,
                ),
                results_view(results@) == matching_among(apps, past, query@, i as nat),
                scores_follow_matches(apps, past, query@, i as nat),
            decreases self.apps.len() - i,
        {
            let ghost so_far = matched(self.matcher);
            let ghost old_results = results@;
            let ghost name = apps[i as int].name;
            assert(name == self.apps@[i as int].name@);
            assert(apps.take(i + 1).drop_last() =~= apps.take(i as int));
            assert(apps.take(i + 1).last() == apps[i as int]);
            if can_match(self.apps[i].name.as_str(), query) {
                let score: Option<i64> = fuzzy_score(
                    &mut self.matcher,
                    self.apps[i].name.as_str(),
                    query,
                );
                assert(matched(self.matcher) =~= history(apps, past) + questions(
                    apps.take(i + 1),
                    query@,
                ));
                assert(score == app_score(apps, past, query@, i as int));
                match score {
                    Some(score) => {
                        let result: SearchResult = self.apps[i].result(score);
                        results.push(result);
                        assert(results_view(results@) =~= results_view(old_results).push(result@));
                    },
                    None => {},
                }
            }
            i = i + 1;
        }
        proof {
            assert(apps.take(apps.len() as int) =~= apps);
            self.answered@ = past.push(query@);
            assert(past.push(query@).drop_last() =~= past);
        }
        results
    }
}

/// The applications of a provider are all its entries, in their order.
proof fn law_applications_are_the_entries(provider: DesktopAppProvider)
    ensures
        provider.apps().len() == provider.apps@.len(),
        forall|i: int|
            0 <= i < provider.apps@.len() ==> #[trigger] provider.apps()[i] == provider.apps@[i]@,
        provider.past() == provider.answered@,
{
}

} // verus!
