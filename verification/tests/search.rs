use fuzzy_matcher::skim::SkimMatcherV2;
use fuzzy_matcher::FuzzyMatcher;
use hks_shell::search::desktop::{parse_command, DesktopAppProvider, DesktopFile, EntryFields};
use hks_shell::search::fuzzy::can_match;
use hks_shell::search::ranking::{best_results, MAX_RESULTS};
use hks_shell::search::{Action, Search, SearchProvider, SearchResult};

fn file(name: &str, text: &str) -> DesktopFile {
    DesktopFile { path: format!("/usr/share/applications/{name}.desktop"), text: text.to_string() }
}

fn app(name: &str) -> DesktopFile {
    file(
        name,
        &format!("[Desktop Entry]\nType=Application\nName={name}\nExec={name} --new %U\n"),
    )
}

fn owned(words: &[&str]) -> Vec<String> {
    words.iter().map(|word| word.to_string()).collect()
}

fn titles(results: &[SearchResult]) -> Vec<String> {
    results.iter().map(|result| result.title.clone()).collect()
}

fn result(title: &str, score: i64) -> SearchResult {
    SearchResult {
        title: title.to_string(),
        subtitle: None,
        icon: None,
        score,
        action: Action::Launch { program: title.to_string(), args: Vec::new() },
    }
}

fn launched(result: &SearchResult) -> (String, Vec<String>) {
    match &result.action {
        Action::Launch { program, args } => (program.clone(), args.clone()),
    }
}

/// The one application that a file describes, found by the empty query.
fn described(text: &str, locales: &[&str]) -> Option<SearchResult> {
    let mut provider = DesktopAppProvider::load(&[file("one", text)], &owned(locales));
    let mut found = provider.search("");
    assert_eq!(found.len(), provider.len());
    found.pop()
}

#[test]
fn commands_lose_their_field_codes() {
    assert_eq!(
        parse_command("firefox %u"),
        Some(("firefox".to_string(), owned(&[])))
    );
    assert_eq!(
        parse_command("  env %i A=1  prog %F --flag 50% %%x "),
        Some(("env".to_string(), owned(&["A=1", "prog", "--flag", "50%"])))
    );
    assert_eq!(
        parse_command("%U real"),
        Some(("real".to_string(), owned(&[])))
    );
    assert_eq!(parse_command("%f %U"), None);
    assert_eq!(parse_command(""), None);
    assert_eq!(parse_command(" \t"), None);
}

#[test]
fn fields_describe_an_application() {
    let fields = || EntryFields {
        type_: Some("Application".to_string()),
        no_display: false,
        name: Some("Files".to_string()),
        command_line: Some("nautilus --new-window %U".to_string()),
        comment: None,
        generic_name: Some("File Manager".to_string()),
        icon: Some("folder".to_string()),
    };
    let app = fields().into_app().unwrap();
    assert_eq!(app.name, "Files");
    assert_eq!(app.subtitle, Some("File Manager".to_string()));
    assert_eq!(app.icon, Some("folder".to_string()));
    assert_eq!(app.program, "nautilus");
    assert_eq!(app.args, owned(&["--new-window"]));

    let commented = EntryFields { comment: Some("Browse".to_string()), ..fields() };
    assert_eq!(commented.into_app().unwrap().subtitle, Some("Browse".to_string()));
    let bare = EntryFields { generic_name: None, icon: None, ..fields() };
    let bare = bare.into_app().unwrap();
    assert_eq!((bare.subtitle, bare.icon), (None, None));

    assert!(EntryFields { type_: Some("Link".to_string()), ..fields() }.into_app().is_none());
    assert!(EntryFields { type_: None, ..fields() }.into_app().is_none());
    assert!(EntryFields { no_display: true, ..fields() }.into_app().is_none());
    assert!(EntryFields { name: None, ..fields() }.into_app().is_none());
    assert!(EntryFields { command_line: None, ..fields() }.into_app().is_none());
    let codes = EntryFields { command_line: Some("%U %f".to_string()), ..fields() };
    assert!(codes.into_app().is_none());
}

#[test]
fn files_are_parsed() {
    let found = described(
        "[Desktop Entry]\nType=Application\nName=Mail\nComment=Read mail\nGenericName=Client\n\
         Icon=mail-app\nExec=mailer -c %u\nNoDisplay=false\n\n[Desktop Action x]\nName=Other\n",
        &[],
    )
    .unwrap();
    assert_eq!(found.title, "Mail");
    assert_eq!(found.subtitle, Some("Read mail".to_string()));
    assert_eq!(found.icon, Some("mail-app".to_string()));
    assert_eq!(found.score, 0);
    assert_eq!(launched(&found), ("mailer".to_string(), owned(&["-c"])));
}

#[test]
fn generic_name_stands_in_for_the_comment() {
    let text = "[Desktop Entry]\nType=Application\nName=Mail\nGenericName=Client\nExec=m\n";
    let found = described(text, &[]).unwrap();
    assert_eq!(found.subtitle, Some("Client".to_string()));
    assert_eq!(found.icon, None);
    let bare = described("[Desktop Entry]\nType=Application\nName=Mail\nExec=m\n", &[]).unwrap();
    assert_eq!(bare.subtitle, None);
}

#[test]
fn values_follow_the_locales() {
    let text = "[Desktop Entry]\nType=Application\nName=Mail\nName[de]=Post\nName[fr_CA]=Courriel\n\
                Comment=Read\nComment[de_AT]=Lesen\nGenericName=Client\nExec=m\n";
    assert_eq!(described(text, &[]).unwrap().title, "Mail");
    assert_eq!(described(text, &["de"]).unwrap().title, "Post");
    assert_eq!(described(text, &["de_AT"]).unwrap().title, "Post");
    assert_eq!(described(text, &["de_AT"]).unwrap().subtitle, Some("Lesen".to_string()));
    assert_eq!(described(text, &["fr"]).unwrap().title, "Mail");
    assert_eq!(described(text, &["fr_CA", "de"]).unwrap().title, "Courriel");
    assert_eq!(described(text, &["es", "de"]).unwrap().title, "Post");
}

#[test]
fn what_is_no_application_is_left_out() {
    assert!(described("[Desktop Entry]\nType=Link\nName=A\nExec=a\n", &[]).is_none());
    assert!(described("[Desktop Entry]\nName=A\nExec=a\n", &[]).is_none());
    assert!(described("[Desktop Entry]\nType=Application\nExec=a\n", &[]).is_none());
    assert!(described("[Desktop Entry]\nType=Application\nName=A\n", &[]).is_none());
    assert!(described("[Desktop Entry]\nType=Application\nName=A\nExec=%U\n", &[]).is_none());
    let hidden = "[Desktop Entry]\nType=Application\nName=A\nExec=a\nNoDisplay=true\n";
    assert!(described(hidden, &[]).is_none());
    assert!(described("", &[]).is_none());
    assert!(described("no group here\nName=A\n", &[]).is_none());
}

#[test]
fn applications_keep_the_order_of_their_files() {
    let files = [app("alpha"), file("broken", "Type=Link"), app("beta"), app("gamma")];
    let mut provider = DesktopAppProvider::load(&files, &[]);
    assert_eq!(provider.len(), 3);
    assert_eq!(titles(&provider.search("")), owned(&["alpha", "beta", "gamma"]));
    assert_eq!(titles(&provider.search("et")), owned(&["beta"]));
    assert_eq!(titles(&provider.search("xyz")), owned(&[]));
}

#[test]
fn names_are_matched_fuzzily() {
    let mut provider = DesktopAppProvider::load(&[app("Firefox"), app("thunar")], &[]);
    assert_eq!(titles(&provider.search("ffx")), owned(&["Firefox"]));
    assert_eq!(titles(&provider.search("FX")), owned(&[]));
    assert_eq!(titles(&provider.search("Fx")), owned(&["Firefox"]));
    assert_eq!(titles(&provider.search("xf")), owned(&[]));
    assert_eq!(titles(&provider.search("r")), owned(&["Firefox", "thunar"]));
}

#[test]
fn scores_are_those_of_one_matcher() {
    let names = ["Firefox", "Files", "GIMP", "Text Editor", "LibreOffice Writer"];
    let files: Vec<DesktopFile> = names.iter().map(|name| app(name)).collect();
    let mut provider = DesktopAppProvider::load(&files, &[]);
    let matcher = SkimMatcherV2::default();
    for query in ["f", "fi", "ed", "W", "e r", "lo", "gimp", "ff", "ee"] {
        let found = provider.search(query);
        let mut left = found.iter();
        for name in names {
            if let Some(score) = matcher.fuzzy_match(name, query) {
                let result = left.next().unwrap();
                assert_eq!((result.title.as_str(), result.score), (name, score));
                let program = name.split(' ').next().unwrap();
                assert_eq!(launched(result).0, program);
            }
        }
        assert!(left.next().is_none());
    }
}

#[test]
fn scores_may_depend_on_what_was_searched_before() {
    let mut state: u32 = 1;
    let mut word = |longest: u32| {
        let mut text = String::new();
        for _ in 0..longest {
            state = state.wrapping_mul(1664525).wrapping_add(1013904223);
            text.push(['a', 'b', 'A', '-'][(state >> 30) as usize]);
        }
        text
    };
    let names: Vec<String> = (0..30).map(|i| format!("a{}", word(3 + i % 9))).collect();
    let files: Vec<DesktopFile> = names.iter().map(|name| app(name)).collect();
    let mut provider = DesktopAppProvider::load(&files, &[]);
    let matcher = SkimMatcherV2::default();
    let mut differing = 0;
    for i in 0..300 {
        let query = word(1 + i % 5);
        let found = provider.search(&query);
        let mut expected = Vec::new();
        for name in &names {
            if let Some(score) = matcher.fuzzy_match(name, &query) {
                expected.push((name.clone(), score));
                if SkimMatcherV2::default().fuzzy_match(name, &query) != Some(score) {
                    differing += 1;
                }
            }
        }
        let found: Vec<(String, i64)> = found.into_iter().map(|r| (r.title, r.score)).collect();
        assert_eq!(found, expected, "{query}");
    }
    assert!(differing > 0);
}

#[test]
fn searching_for_nothing_finds_nothing() {
    let mut search = Search::new(&[app("alpha")], &[]);
    assert_eq!(search.query("").len(), 0);
    assert_eq!(search.query("alp").len(), 1);
}

#[test]
fn the_best_results_come_first() {
    let names = ["a-x-b-x-c", "xabcx", "abc", "abcd", "zzz"];
    let files: Vec<DesktopFile> = names.iter().map(|name| app(name)).collect();
    let found = Search::new(&files, &[]).query("abc");
    assert_eq!(found.len(), 4);
    assert!(found.windows(2).all(|pair| pair[0].score >= pair[1].score));
    let matcher = SkimMatcherV2::default();
    let mut expected: Vec<(i64, &str)> = names
        .iter()
        .filter_map(|name| Some((matcher.fuzzy_match(name, "abc")?, *name)))
        .collect();
    expected.sort_by_key(|(score, _)| -score);
    let expected: Vec<&str> = expected.into_iter().map(|(_, name)| name).collect();
    assert_eq!(titles(&found), owned(&expected));
    assert_eq!(found.last().unwrap().title, "xabcx");
}

#[test]
fn a_query_returns_at_most_twenty_results() {
    let files: Vec<DesktopFile> = (0..30).map(|i| app(&format!("app{i:02}"))).collect();
    let found = Search::new(&files, &[]).query("app");
    assert_eq!(found.len(), 20);
    assert_eq!(found.len(), MAX_RESULTS);
    let expected: Vec<String> = (0..20).map(|i| format!("app{i:02}")).collect();
    assert_eq!(titles(&found), expected);
}

#[test]
fn ties_keep_their_order() {
    let list = best_results(vec![
        result("a", 5),
        result("b", 9),
        result("c", 5),
        result("d", -1),
        result("e", 9),
        result("f", 5),
    ]);
    assert_eq!(titles(&list), owned(&["b", "e", "a", "c", "f", "d"]));
    assert_eq!(best_results(Vec::new()).len(), 0);
}

#[test]
fn ranking_is_a_stable_sort() {
    let mut state: u32 = 7;
    for count in [1usize, 19, 20, 21, 50, 200] {
        let mut list = Vec::new();
        for i in 0..count {
            state = state.wrapping_mul(1664525).wrapping_add(1013904223);
            list.push(result(&i.to_string(), (state >> 28) as i64 - 8));
        }
        let mut expected = list.clone();
        expected.sort_by(|a, b| b.score.cmp(&a.score));
        expected.truncate(20);
        let ranked = best_results(list);
        assert_eq!(titles(&ranked), titles(&expected));
        assert!(ranked.iter().zip(&expected).all(|(a, b)| a.score == b.score));
    }
}

#[test]
fn extreme_scores_are_ranked() {
    let list = best_results(vec![result("low", i64::MIN), result("high", i64::MAX)]);
    assert_eq!(titles(&list), owned(&["high", "low"]));
}

#[test]
fn a_match_is_found_or_outscored() {
    let mut names: Vec<String> = (0..25).map(|i| format!("{}ab{i}", "x".repeat(i))).collect();
    names.push("zzz".to_string());
    let files: Vec<DesktopFile> = names.iter().map(|name| app(name)).collect();
    let found = Search::new(&files, &[]).query("ab");
    assert_eq!(found.len(), 20);
    let matcher = SkimMatcherV2::default();
    for name in &names {
        match matcher.fuzzy_match(name, "ab") {
            Some(score) => assert!(
                found.iter().any(|result| &result.title == name)
                    || found.iter().all(|result| result.score >= score)
            ),
            None => assert!(found.iter().all(|result| &result.title != name)),
        }
    }
}

#[test]
fn the_applications_are_the_only_source() {
    let files: Vec<DesktopFile> =
        (0..40).map(|i| app(&format!("{}app{i}", "z-".repeat(i % 7)))).collect();
    let locales = owned(&["de_DE"]);
    let mut search = Search::new(&files, &locales);
    let mut provider = DesktopAppProvider::load(&files, &locales);
    for query in ["a", "ap", "zp", "3", "zz"] {
        let mut expected = provider.search(query);
        expected.sort_by(|a, b| b.score.cmp(&a.score));
        expected.truncate(20);
        assert_eq!(titles(&search.query(query)), titles(&expected));
    }
}

#[test]
fn large_files_and_names_are_indexed() {
    let comment = "x".repeat(0x100_0001);
    let text = format!(
        "[Desktop Entry]\nType=Application\nName=Mail\nExec=m\n[Other]\nX={comment}\n"
    );
    assert_eq!(described(&text, &[]).unwrap().title, "Mail");

    let name = "x".repeat(0x100_0001);
    assert!(can_match(&name, "xx"));
    let text = format!("[Desktop Entry]\nType=Application\nName={name}\nExec=m\n");
    let mut search = Search::new(&[file("long", &text)], &[]);
    assert_eq!(search.query("xx").len(), 1);
    assert_eq!(search.query("y").len(), 0);
}

#[test]
fn what_the_matcher_can_take_is_bounded() {
    let long = "a".repeat(0x7000_0000 / 32 + 1);
    assert!(can_match("", ""));
    assert!(can_match(&long, "a"));
    assert!(can_match("a", &long));
    assert!(can_match(&long[1..], &long));
    assert!(!can_match(&long, &long));
}
