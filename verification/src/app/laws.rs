//! What holds of the launcher as a whole.
use super::drag::{
    gesture, last_drag, last_grab, law_where_a_drag_ends, lets_go, PointerEvent, Position,
};
use super::{
    accepts, closes, is_command, new_app, panel_height, subtitle_text, App, AppView, Effect,
    EffectView, KeyEvent, KeyView, KEY_BACKSPACE, KEY_DOWN, KEY_UP, MAX_ROWS, PLACEHOLDER,
};
use crate::renderer::layout::{
    law_buffer_sizes, law_row_tops, BAR_H, PANEL_PADDING, RESULTS_TOP, ROW_H,
};
use crate::renderer::{new_renderer, RendererView};
use crate::search::desktop::{app_matches, stands_for, stands_for_match, AppEntryView};
use crate::search::fuzzy::fuzzy_matches;
use crate::search::{law_app_search, ActionView, ResultView, Search};
use crate::text::{has_control, law_control_codes, lines};
use vstd::prelude::*;

verus! {

/// The selection is on a row that is shown at the start, and stays on one whatever happens: keys,
/// new results, a configure, a blink or pointer events.
pub proof fn law_the_selection_stays_on_a_shown_row(
    app: AppView,
    keysym: u32,
    results: Seq<ResultView>,
    events: Seq<PointerEvent>,
)
    requires
        app.selection_is_visible(),
    ensures
        new_app().selection_is_visible(),
        app.after_command(keysym).selection_is_visible(),
        app.with_results(results).fitted().selection_is_visible(),
        app.refreshed().selection_is_visible(),
        app.configured().selection_is_visible(),
        app.blinked().selection_is_visible(),
        app.after_pointer(events).selection_is_visible(),
        app.visible() > 0 ==> app.highlighted() == Some(app.selected as usize),
{
}

/// Enter launches the highlighted result, and closes the launcher; without results it only closes
/// it.
pub proof fn law_enter_launches_the_highlighted_result(app: AppView, keysym: u32)
    requires
        app.selection_is_visible(),
        accepts(keysym),
    ensures
        !app.after_command(keysym).running,
        match app.highlighted() {
            Some(row) => app.command_effect(keysym) == EffectView::Launch(
                app.rows()[row as int].action,
            ),
            None => app.command_effect(keysym) == EffectView::Nothing,
        },
{
}

/// The results on show are those of the query, from the start and whatever happens: only an edit
/// of the query, which searches anew, changes either. (`pasts` is what the providers had answered
/// when they were asked.)
pub proof fn law_the_results_belong_to_the_query(
    app: AppView,
    search: Search,
    pasts: Seq<Seq<Seq<char>>>,
    keysym: u32,
    events: Seq<PointerEvent>,
)
    requires
        search.may_answer(pasts, app.query, app.results),
    ensures
        search.may_answer(pasts, new_app().query, new_app().results),
        ({
            let after = app.after_command(keysym);
            search.may_answer(pasts, after.query, after.results)
        }),
        search.may_answer(pasts, app.refreshed().query, app.refreshed().results),
        search.may_answer(pasts, app.fitted().query, app.fitted().results),
        search.may_answer(pasts, app.configured().query, app.configured().results),
        search.may_answer(pasts, app.blinked().query, app.blinked().results),
        ({
            let after = app.after_pointer(events);
            search.may_answer(pasts, after.query, after.results)
        }),
{
}

/// Enter launches an application whose name fuzzy-matches the query, with the program and the
/// arguments of its entry.
pub proof fn law_enter_launches_a_matching_application(
    app: AppView,
    search: Search,
    apps: Seq<AppEntryView>,
    pasts: Seq<Seq<Seq<char>>>,
    keysym: u32,
)
    requires
        search.searches_apps(apps),
        search.may_answer(pasts, app.query, app.results),
        app.selection_is_visible(),
        app.visible() > 0,
        accepts(keysym),
    ensures
        exists|i: int|
            0 <= i < apps.len() && fuzzy_matches((#[trigger] apps[i]).name, app.query)
                && app.command_effect(keysym) == EffectView::Launch(
                ActionView::Launch { program: apps[i].program, args: apps[i].args },
            ),
{
    law_app_search(search, apps, pasts, app.query, app.results);
    let result = app.results[app.selected as int];
    assert(stands_for_match(result, apps, pasts[0], app.query));
    let i = choose|i: int|
        0 <= i < apps.len() && app_matches(#[trigger] apps[i], app.query) && stands_for(
            result,
            apps,
            pasts[0],
            app.query,
            i,
        );
    assert(fuzzy_matches(apps[i].name, app.query));
}

/// Escape and Enter close the launcher, and no other key does.
pub proof fn law_only_escape_and_enter_close(app: AppView, event: KeyView, results: Seq<ResultView>)
    requires
        app.running,
    ensures
        match app.edited_query(event) {
            Some(query) => (AppView { query, ..app }).with_results(results).fitted().running,
            None => app.after_command(event.keysym).running == !closes(event.keysym),
        },
        closes(event.keysym) ==> app.edited_query(event) is None,
{
}

/// Up undoes Down, and Down undoes Up, wherever the first of the two moved the selection.
pub proof fn law_up_and_down_undo_each_other(app: AppView, first: u32, second: u32)
    requires
        app.selection_is_visible(),
        app.moved_selection(first) is Some,
        first == KEY_UP && second == KEY_DOWN || first == KEY_DOWN && second
            == KEY_UP,
    ensures
        app.after_command(first).after_command(second) == app.refreshed(),
{
    law_refreshing_twice(app.after_command(first));
    let moved = app.after_command(first);
    let back = moved.after_command(second);
    assert(moved.visible() == app.visible());
    assert(back.selected == app.selected);
    match app.renderer {
        Some(renderer) => {
            lemma_redrawing(app, moved, renderer);
            assert(moved.renderer == Some(
                (AppView { selected: moved.selected, ..app }).drawn_by(renderer),
            ));
        },
        None => {},
    }
}

/// What was drawn before does not show through: only the highlighted band depends on the selection.
proof fn lemma_redrawing(app: AppView, moved: AppView, renderer: RendererView)
    requires
        app.visible() > 0,
        moved == (AppView { selected: moved.selected, renderer: moved.renderer, ..app }),
    ensures
        app.drawn_by(moved.drawn_by(renderer)) == app.drawn_by(renderer),
{
    let again = app.drawn_by(moved.drawn_by(renderer));
    let once = app.drawn_by(renderer);
    assert(again.sel_top == once.sel_top);
    assert(again.icon_glyphs == once.icon_glyphs);
}

/// Telling the renderer twice is telling it once.
pub proof fn law_refreshing_twice(app: AppView)
    ensures
        app.refreshed().refreshed() == app.refreshed(),
{
}

/// The bar shows the query, or the placeholder exactly while the query is empty; below it there
/// are the first results, at most as many as fit.
pub proof fn law_a_refreshed_panel_shows_query_and_results(app: AppView)
    requires
        app.renderer is Some,
        app.wf(),
    ensures
        ({
            let shown = app.refreshed().renderer->0;
            let rows = app.rows();
            &&& shown.wf()
            &&& shown.text == if app.query.len() == 0 {
                PLACEHOLDER@
            } else {
                app.query
            }
            &&& rows.len() <= MAX_ROWS
            &&& rows.is_prefix_of(app.results)
            &&& shown.titles == lines(rows.map_values(|row: ResultView| row.title))
            &&& shown.subtitles == lines(rows.map_values(|row: ResultView| subtitle_text(row)))
            &&& shown.row_icons == rows.map_values(|row: ResultView| row.icon)
            &&& shown.row_count == rows.len()
            &&& shown.sel_height > 0 <==> rows.len() > 0
            &&& shown.caret_on == app.cursor_on
        }),
{
    crate::single::law_small_numbers_are_exact(app.rows().len());
}

/// The caret is shown right after typing, and two blinks leave a refreshed launcher as it was.
pub proof fn law_the_caret_blinks(app: AppView, results: Seq<ResultView>)
    ensures
        app.with_results(results).fitted().cursor_on,
        app.refreshed().blinked().blinked() == app.refreshed(),
        app.blinked().cursor_on == !app.cursor_on,
{
}

/// Without results the panel is the bare bar. With every row it grows by the row's height, all
/// rows lie within it, and it never grows past the rows that are shown at most.
pub proof fn law_rows_fit_the_panel(rows: nat, row: nat)
    requires
        row < rows,
    ensures
        panel_height(0) == BAR_H,
        panel_height(row) < panel_height(rows),
        panel_height(rows + 1) == panel_height(rows) + ROW_H,
        RESULTS_TOP + (row + 1) * ROW_H <= panel_height(rows),
        rows <= MAX_ROWS ==> panel_height(rows) <= BAR_H + MAX_ROWS * ROW_H + PANEL_PADDING,
{
    assert((rows + 1) * ROW_H == rows * ROW_H + ROW_H) by (nonlinear_arith);
    assert((row + 1) * ROW_H <= rows * ROW_H && row * ROW_H < rows * ROW_H) by (nonlinear_arith)
        requires
            row + 1 <= rows,
            ROW_H > 0,
    ;
    assert(rows <= MAX_ROWS ==> rows * ROW_H <= MAX_ROWS * ROW_H) by (nonlinear_arith)
        requires
            ROW_H > 0,
    ;
}

/// A panel that was fitted to its results stays as it is: it asks for no other size, and once the
/// compositor has configured it, the buffer has that size and shows the current state.
pub proof fn law_a_fitted_panel_is_settled(app: AppView)
    requires
        app.wf(),
        app.surface_width > 0,
    ensures
        ({
            let fitted = app.fitted();
            let settled = fitted.configured();
            &&& !fitted.misfits()
            &&& fitted.surface_height == panel_height(app.visible())
            &&& settled.renderer is Some
            &&& (settled.renderer->0).layout_width == app.surface_width
            &&& (settled.renderer->0).layout_height == panel_height(app.visible())
            &&& settled.refreshed() == settled
            &&& settled.fitted() == settled
        }),
{
    let fitted = app.fitted();
    assert(0 < panel_height(app.visible()) <= 546) by {
        let rows = app.visible();
        assert(rows * ROW_H <= 480) by (nonlinear_arith)
            requires
                rows <= 10,
                ROW_H == 48,
        ;
        assert(rows * ROW_H >= 0) by (nonlinear_arith);
    }
    assert(fitted.visible() == app.visible());
    let sized = AppView {
        renderer: Some(
            match fitted.renderer {
                Some(renderer) => renderer,
                None => new_renderer(
                    fitted.surface_width as u32,
                    fitted.surface_height as u32,
                ),
            }.with_size(fitted.surface_width as u32, fitted.surface_height as u32),
        ),
        ..fitted
    };
    assert(fitted.configured() == sized.refreshed());
    law_refreshing_twice(sized);
}

/// The query after deleting `count` characters with the BackSpace key.
pub open spec fn erased(app: AppView, count: nat) -> Seq<char>
    decreases count,
{
    if count == 0 {
        app.query
    } else {
        let backspace = KeyView { keysym: KEY_BACKSPACE, utf8: None };
        erased(AppView { query: app.edited_query(backspace)->0, ..app }, (count - 1) as nat)
    }
}

/// BackSpace undoes typing: deleting as many characters as a key typed brings back the query.
pub proof fn law_backspace_undoes_typing(app: AppView, event: KeyView, text: Seq<char>)
    requires
        !is_command(event.keysym),
        event.utf8 == Some(text),
        text.len() > 0,
        !has_control(text),
    ensures
        app.edited_query(event) == Some(app.query + text),
        erased(AppView { query: app.query + text, ..app }, text.len()) == app.query,
{
    lemma_erasing(app, app.query, text);
}

/// Deleting all of a text that ends the query.
proof fn lemma_erasing(app: AppView, query: Seq<char>, text: Seq<char>)
    ensures
        erased(AppView { query: query + text, ..app }, text.len()) == query,
    decreases text.len(),
{
    if text.len() > 0 {
        assert((query + text).drop_last() =~= query + text.drop_last());
        lemma_erasing(app, query, text.drop_last());
    } else {
        assert(query + text =~= query);
    }
}

/// Keys without text, and keys whose text holds a control character, leave the query alone; so
/// does BackSpace on an empty one.
pub proof fn law_control_characters_are_not_typed(app: AppView, event: KeyView)
    requires
        !is_command(event.keysym),
        event.utf8 matches Some(text) ==> text.len() == 0 || has_control(text),
    ensures
        app.edited_query(event) is None,
        app.after_command(event.keysym) == app,
        app.command_effect(event.keysym) == EffectView::Nothing,
        app.query.len() == 0 ==> app.edited_query(
            KeyView { keysym: KEY_BACKSPACE, ..event },
        ) == Some(app.query),
{
}

impl AppView {
    /// Whether the panel lies on the output (at its top or left edge, where it is larger).
    pub open spec fn on_output(self) -> bool {
        &&& 0 <= self.position_left <= self.max_left()
        &&& 0 <= self.position_top <= self.max_top()
    }
}

/// The panel starts out on the output, in its middle, and a drag leaves it on the output, wherever
/// it was before.
pub proof fn law_dragging_keeps_the_panel_on_the_output(app: AppView, events: Seq<PointerEvent>)
    requires
        app.wf(),
        app.is_dragged(events) || app.on_output(),
    ensures
        new_app().wf(),
        new_app().on_output(),
        -1 <= 2 * new_app().position_left - new_app().max_left() <= 1,
        -1 <= 2 * new_app().position_top - new_app().max_top() <= 1,
        app.after_pointer(events).on_output(),
{
}

/// Events elsewhere, and motion of a pointer that does not hold the panel, change nothing.
pub proof fn law_only_a_held_panel_moves(app: AppView, events: Seq<PointerEvent>)
    requires
        forall|i: int|
            0 <= i < events.len() && (#[trigger] events[i]).on_panel ==> !app.dragging
                && !events[i].grabs(),
    ensures
        app.after_pointer(events) == app,
        app.pointer_effect(events) == EffectView::Nothing,
{
    lemma_no_grab(events);
    if app.dragging {
        assert(!lets_go(events));
    }
    lemma_nothing_dragged(app.dragging, events);
}

/// Motion that does not move the panel is not lost, be it too small, rounded to nothing or held up
/// by an edge of the output: after a frame that holds the panel and leaves it where it was, the
/// next frame that drags acts as if both had come as one.
pub proof fn law_small_motions_add_up(
    app: AppView,
    first: Seq<PointerEvent>,
    second: Seq<PointerEvent>,
)
    requires
        app.dragging || last_grab(first) is Some,
        !lets_go(first),
        !app.is_moved(first),
        last_drag(true, second) is Some,
    ensures
        last_grab(first) is None ==> app.after_pointer(first) == app,
        app.after_pointer(first).after_pointer(second) == app.after_pointer(first + second),
        app.after_pointer(first).pointer_effect(second) == app.pointer_effect(first + second),
{
    let both = first + second;
    lemma_grabs_together(first, second);
    lemma_later_drag(app.dragging, first, second);
    assert(lets_go(both) == lets_go(second)) by {
        if lets_go(second) {
            let i = choose|i: int| 0 <= i < second.len() && (#[trigger] second[i]).lets_go();
            assert(both[first.len() + i].lets_go());
        }
        if lets_go(both) {
            let i = choose|i: int| 0 <= i < both.len() && (#[trigger] both[i]).lets_go();
            if i < first.len() {
                assert(first[i].lets_go());
            }
            assert(second[i - first.len()].lets_go());
        }
    }
}

/// The last grab of two frames is that of the second, or of the first where the second has none.
proof fn lemma_grabs_together(first: Seq<PointerEvent>, second: Seq<PointerEvent>)
    ensures
        last_grab(first) matches Some(i) ==> 0 <= i < first.len(),
        match last_grab(second) {
            Some(i) => 0 <= i < second.len() && last_grab(first + second) == Some(first.len() + i),
            None => last_grab(first + second) == last_grab(first),
        },
    decreases first.len() + second.len(),
{
    if second.len() > 0 {
        assert((first + second).drop_last() =~= first + second.drop_last());
        lemma_grabs_together(first, second.drop_last());
    } else {
        assert(first + second =~= first);
        if first.len() > 0 {
            lemma_grabs_together(first.drop_last(), second);
        }
    }
}

/// Without a grab among the events there is no last one.
proof fn lemma_no_grab(events: Seq<PointerEvent>)
    requires
        forall|i: int| 0 <= i < events.len() ==> !(#[trigger] events[i]).grabs(),
    ensures
        last_grab(events) is None,
    decreases events.len(),
{
    if events.len() > 0 {
        lemma_no_grab(events.drop_last());
    }
}

/// Without a hold, or without events on the panel, nothing is dragged.
proof fn lemma_nothing_dragged(held: bool, events: Seq<PointerEvent>)
    requires
        forall|i: int|
            0 <= i < events.len() && (#[trigger] events[i]).on_panel ==> !held
                && !events[i].grabs(),
    ensures
        last_drag(held, events) is None,
    decreases events.len(),
{
    if events.len() > 0 {
        let before = events.drop_last();
        assert forall|i: int|
            0 <= i < before.len() && (#[trigger] before[i]).on_panel implies !held
            && !before[i].grabs() by {
            assert(before[i] == events[i]);
        }
        lemma_nothing_dragged(held, before);
        lemma_no_grab(before);
    }
}

/// A motion of a held panel in the later events is the last one of all.
proof fn lemma_later_drag(held: bool, first: Seq<PointerEvent>, second: Seq<PointerEvent>)
    requires
        held || last_grab(first) is Some,
    ensures
        last_drag(true, second) matches Some(i) ==> {
            &&& 0 <= i < second.len()
            &&& last_drag(held, first + second) == Some(first.len() + i)
        },
    decreases second.len(),
{
    if second.len() > 0 {
        assert((first + second).drop_last() =~= first + second.drop_last());
        assert((first + second).last() == second.last());
        lemma_later_drag(held, first, second.drop_last());
        lemma_grabs_together(first, second.drop_last());
    }
}

/// The keys that close the launcher are Escape, Return and keypad Enter, and with Up, Down and
/// BackSpace those are all that do more than type: by their codes.
pub proof fn law_command_keys(keysym: u32)
    ensures
        closes(keysym) <==> keysym == 0xff1b || keysym == 0xff0d || keysym == 0xff8d,
        accepts(keysym) <==> keysym == 0xff0d || keysym == 0xff8d,
        is_command(keysym) <==> keysym == 0xff1b || keysym == 0xff0d || keysym == 0xff8d || keysym
            == 0xff52 || keysym == 0xff54 || keysym == 0xff08,
{
}

/// Any key but those six types its text at the end of the query, if it has one without control
/// codes: the launcher keeps running and shows the first of the new results as the selected one.
/// With no such text the key does nothing.
pub proof fn law_other_keys_type(app: AppView, event: KeyView, results: Seq<ResultView>)
    requires
        event.keysym != 0xff1b && event.keysym != 0xff0d && event.keysym != 0xff8d,
        event.keysym != 0xff52 && event.keysym != 0xff54 && event.keysym != 0xff08,
    ensures
        event.utf8 matches Some(text) ==> (text.len() > 0 && (forall|i: int|
            0 <= i < text.len() ==> 0x20 <= (#[trigger] text[i]) as u32 <= 0x7e || 0xa0
                <= text[i] as u32) ==> app.edited_query(event) == Some(app.query + text)),
        event.utf8 matches Some(text) ==> (text.len() == 0 || (exists|i: int|
            0 <= i < text.len() && ((#[trigger] text[i]) as u32 <= 0x1f || 0x7f <= text[i] as u32
                <= 0x9f)) ==> app.edited_query(event) is None),
        event.utf8 is None ==> app.edited_query(event) is None,
        app.after_command(event.keysym) == app,
        app.command_effect(event.keysym) == EffectView::Nothing,
        app.edited_query(event) matches Some(query) ==> {
            let after = (AppView { query, ..app }).with_results(results).fitted();
            &&& after.query == query && after.results == results
            &&& after.selected == 0 && after.cursor_on
            &&& after.running == app.running
            &&& after.pointer == app.pointer && after.keyboard == app.keyboard
            &&& after.dragging == app.dragging && after.grab_position == app.grab_position
            &&& after.position_top == app.position_top && after.position_left == app.position_left
            &&& after.surface_width == app.surface_width
        },
{
    if let Some(text) = event.utf8 {
        law_control_codes(text);
    }
}

/// BackSpace takes the last character off the query, if there is one, whatever text it types.
pub proof fn law_backspace_takes_one_character(app: AppView, event: KeyView)
    requires
        event.keysym == 0xff08,
    ensures
        app.edited_query(event) is Some,
        app.query.len() == 0 ==> app.edited_query(event) == Some(app.query),
        app.query.len() > 0 ==> (app.edited_query(event)->0).push(app.query.last()) == app.query,
{
    if app.query.len() > 0 {
        assert(app.query.drop_last().push(app.query.last()) =~= app.query);
    }
}

/// Escape stops the launcher and does nothing else. Return and keypad Enter stop it too, and launch
/// the selected one of the results, if it is there.
pub proof fn law_keys_that_close(app: AppView, event: KeyView)
    requires
        event.keysym == 0xff1b || event.keysym == 0xff0d || event.keysym == 0xff8d,
    ensures
        app.edited_query(event) is None,
        app.after_command(event.keysym) == (AppView { running: false, ..app }),
        event.keysym == 0xff1b ==> app.command_effect(event.keysym) == EffectView::Nothing,
        event.keysym != 0xff1b ==> app.command_effect(event.keysym) == if app.selected
            < app.results.len() {
            EffectView::Launch(app.results[app.selected as int].action)
        } else {
            EffectView::Nothing
        },
{
}

/// Up goes one row up, except from the first; Down goes one row down, except from the last of the
/// results and from the tenth row. The panel is refreshed when the selection moved; nothing else
/// changes.
pub proof fn law_arrow_keys(app: AppView, event: KeyView)
    requires
        event.keysym == 0xff52 || event.keysym == 0xff54,
    ensures
        app.edited_query(event) is None,
        ({
            let after = app.after_command(event.keysym);
            let goes = if event.keysym == 0xff52 {
                app.selected > 0
            } else {
                app.selected + 1 < app.results.len() && app.selected < 9
            };
            &&& !goes ==> after == app && app.command_effect(event.keysym) == EffectView::Nothing
            &&& goes ==> {
                &&& event.keysym == 0xff52 ==> after.selected == app.selected - 1
                &&& event.keysym == 0xff54 ==> after.selected == app.selected + 1
                &&& after == (AppView { selected: after.selected, ..app }).refreshed()
                &&& app.renderer is Some ==> app.command_effect(event.keysym) == EffectView::Redraw
                &&& app.renderer is None ==> app.command_effect(event.keysym) == EffectView::Nothing
            }
        }),
{
}

/// All results are shown where there are at most ten, and the first ten of more.
pub proof fn law_ten_rows_are_shown(app: AppView)
    ensures
        app.results.len() <= 10 ==> app.visible() == app.results.len() && app.rows() == app.results,
        app.results.len() > 10 ==> app.visible() == 10 && app.rows() == app.results.take(10),
        app.results.len() == 0 ==> app.highlighted() is None,
        app.results.len() > 0 && app.selected < app.results.len() && app.selected < 10
            ==> app.highlighted() == Some(app.selected as usize),
        app.results.len() > 0 && app.selected >= app.results.len() && app.results.len() <= 10
            ==> app.highlighted() == Some((app.results.len() - 1) as usize),
        app.results.len() > 10 && app.selected >= 10 ==> app.highlighted() == Some(9usize),
{
    if app.results.len() <= 10 {
        assert(app.rows() =~= app.results);
    }
}

/// The panel is 50 high without results, and else 66 and 48 more for each row, up to ten.
pub proof fn law_panel_heights(app: AppView)
    ensures
        app.results.len() == 0 ==> panel_height(app.visible()) == 50,
        0 < app.results.len() <= 10 ==> panel_height(app.visible()) == 66 + 48 * app.results.len(),
        app.results.len() >= 10 ==> panel_height(app.visible()) == 546,
{
}

/// Fitting a panel that has the height for its rows refreshes it and draws it; any other takes that
/// height, and asks the compositor for it at its width, without changing anything else.
pub proof fn law_fitting(app: AppView)
    requires
        app.wf(),
    ensures
        ({
            let height = if app.results.len() == 0 {
                50
            } else if app.results.len() <= 10 {
                66 + 48 * app.results.len()
            } else {
                546
            };
            &&& app.surface_height == height ==> app.fitted() == app.refreshed() && app.fitting()
                == app.redraw()
            &&& app.surface_height != height ==> app.fitted() == (AppView {
                surface_height: height as i32,
                ..app
            }) && app.fitting() == (EffectView::Resize {
                width: app.surface_width as u32,
                height: height as u32,
            })
        }),
{
    law_panel_heights(app);
}

/// A refreshed panel, field by field. The bar holds the query in opaque white, or the word `Search`
/// dimmed while the query is empty; the rows hold title, subtitle and icon of the results that are
/// shown; the band lies on the selected row; the caret is as it is. Sizes and known icons stay, and
/// so does all but the renderer.
pub proof fn law_a_refreshed_panel(app: AppView, before: RendererView)
    requires
        app.renderer == Some(before),
    ensures
        ({
            let after = app.refreshed().renderer->0;
            let rows = if app.results.len() <= 10 {
                app.results
            } else {
                app.results.take(10)
            };
            &&& app.refreshed() == (AppView { renderer: Some(after), ..app })
            &&& app.redraw() == EffectView::Redraw
            &&& app.query.len() > 0 ==> after.text == app.query && after.text_color.alpha == 255
            &&& app.query.len() == 0 ==> after.text == "Search"@ && after.text_color.alpha == 180
            &&& after.text_color.red == 255 && after.text_color.green == 255
                && after.text_color.blue == 255
            &&& after.titles == lines(Seq::new(rows.len(), |i: int| rows[i].title))
            &&& after.subtitles == lines(
                Seq::new(
                    rows.len(),
                    |i: int|
                        match rows[i].subtitle {
                            Some(subtitle) => subtitle,
                            None => Seq::empty(),
                        },
                ),
            )
            &&& after.row_icons == Seq::new(rows.len(), |i: int| rows[i].icon)
            &&& after.row_count == rows.len()
            &&& after.icon_glyphs.len() == 0 && after.next_row == 0
            &&& rows.len() == 0 ==> after.sel_height == 0 && after.sel_top == before.sel_top
            &&& rows.len() > 0 ==> after.sel_height == 48
            &&& rows.len() > 0 && app.selected < rows.len() ==> after.sel_top == 58 + 48
                * app.selected
            &&& rows.len() > 0 && app.selected >= rows.len() ==> after.sel_top == 58 + 48 * (
            rows.len() - 1)
            &&& after.caret_on == app.cursor_on
            &&& after.width == before.width && after.height == before.height
            &&& after.layout_width == before.layout_width && after.layout_height
                == before.layout_height
            &&& after.icon_ids == before.icon_ids && after.icon_names == before.icon_names
            &&& after.icon_sources == before.icon_sources
        }),
{
    law_ten_rows_are_shown(app);
    crate::single::law_small_numbers_are_exact(app.rows().len());
    if app.highlighted() is Some {
        law_row_tops((app.highlighted()->0) as nat);
    }
    let rows = app.rows();
    assert(rows.map_values(|row: ResultView| row.title) =~= Seq::new(
        rows.len(),
        |i: int| rows[i].title,
    ));
    assert(rows.map_values(|row: ResultView| subtitle_text(row)) =~= Seq::new(
        rows.len(),
        |i: int|
            match rows[i].subtitle {
                Some(subtitle) => subtitle,
                None => Seq::empty(),
            },
    ));
    assert(rows.map_values(|row: ResultView| row.icon) =~= Seq::new(
        rows.len(),
        |i: int| rows[i].icon,
    ));
}

/// Without a renderer there is nothing to refresh and nothing to draw.
pub proof fn law_nothing_to_refresh(app: AppView)
    requires
        app.renderer is None,
    ensures
        app.refreshed() == app,
        app.redraw() == EffectView::Nothing,
{
}

/// A configure gives the renderer the size of the panel, makes one where there is none, and
/// refreshes it; nothing else changes.
pub proof fn law_configuring(app: AppView)
    requires
        app.wf(),
        0 < app.surface_width <= 800_000,
        0 < app.surface_height <= 800_000,
    ensures
        ({
            let after = app.configured();
            &&& after.renderer is Some
            &&& after == (AppView { renderer: after.renderer, ..app })
            &&& after == after.refreshed()
            &&& (after.renderer->0).layout_width == app.surface_width
            &&& (after.renderer->0).layout_height == app.surface_height
            &&& (after.renderer->0).width == (12 * app.surface_width + 5) / 10
            &&& (after.renderer->0).height == (12 * app.surface_height + 5) / 10
            &&& app.renderer matches Some(before) ==> (after.renderer->0).icon_ids
                == before.icon_ids && (after.renderer->0).icon_names == before.icon_names && (
            after.renderer->0).icon_sources == before.icon_sources
        }),
{
    law_buffer_sizes(app.surface_width as u32);
    law_buffer_sizes(app.surface_height as u32);
}

/// A configure, whatever the size: the renderer that is there, or a new one, takes the size of the
/// panel and is refreshed.
pub proof fn law_configuring_any_size(app: AppView)
    ensures
        app.renderer matches Some(before) ==> app.configured() == (AppView {
            renderer: Some(
                before.with_size(app.surface_width as u32, app.surface_height as u32),
            ),
            ..app
        }).refreshed(),
        app.renderer is None ==> app.configured() == (AppView {
            renderer: Some(
                new_renderer(app.surface_width as u32, app.surface_height as u32),
            ),
            ..app
        }).refreshed(),
{
}

/// A blink flips the caret, here and in the renderer, and nothing else.
pub proof fn law_blinking(app: AppView)
    ensures
        app.blinked().cursor_on != app.cursor_on,
        app.blinked() == (AppView {
            cursor_on: app.blinked().cursor_on,
            renderer: app.blinked().renderer,
            ..app
        }),
        app.renderer is None ==> app.blinked().renderer is None,
        app.renderer matches Some(before) ==> app.blinked().renderer == Some(
            RendererView { caret_on: !app.cursor_on, ..before },
        ),
{
}

/// New results replace the old ones, select the first, and show the caret; nothing else changes.
pub proof fn law_new_results(app: AppView, results: Seq<ResultView>)
    ensures
        app.with_results(results) == (AppView { results, selected: 0, cursor_on: true, ..app }),
{
}

/// The launcher starts empty and running, 400 by 200 large, at (1233, 500).
pub proof fn law_the_start()
    ensures
        ({
            let app = new_app();
            &&& app.query.len() == 0 && app.results.len() == 0 && app.selected == 0
            &&& app.cursor_on && app.running && app.renderer is None
            &&& !app.pointer && !app.keyboard && !app.dragging
            &&& app.grab_position == (Position { x: 0, y: 0 })
            &&& app.position_left == 1233 && app.position_top == 500
            &&& app.surface_width == 400 && app.surface_height == 200
        }),
{
}

/// A frame of pointer events, by what it amounts to. Dragged half a pixel or more, the panel goes to
/// the pixel closest to where the pointer took it, within the 2867 by 1200 of the output; otherwise
/// it stays. It is held until the button goes up, at the new place if it moved and at the old one
/// if not. Nothing else changes.
pub proof fn law_pointer_frames(app: AppView, events: Seq<PointerEvent>)
    requires
        app.wf(),
    ensures
        ({
            let seen = gesture(app.dragging, app.grab_position, events);
            let after = app.after_pointer(events);
            let to = seen.drag->0;
            let dx = to.x - seen.grab.x;
            let dy = to.y - seen.grab.y;
            let far = seen.drag is Some && !(-128 < dx < 128 && -128 < dy < 128);
            let high_left = if app.surface_width <= 2867 {
                2867 - app.surface_width
            } else {
                0
            };
            let high_top = if app.surface_height <= 1200 {
                1200 - app.surface_height
            } else {
                0
            };
            &&& after.dragging == (seen.held && !seen.released)
            &&& !far ==> after.position_left == app.position_left && after.position_top
                == app.position_top && app.pointer_effect(events) == EffectView::Nothing
            &&& far ==> {
                &&& ends_at(app.position_left * 256 + dx, high_left, after.position_left as int)
                &&& ends_at(app.position_top * 256 + dy, high_top, after.position_top as int)
                &&& app.pointer_effect(events) == (EffectView::Move {
                    top: after.position_top,
                    left: after.position_left,
                })
            }
            &&& after.grab_position == if after.position_left == app.position_left
                && after.position_top == app.position_top {
                seen.grab
            } else {
                to
            }
            &&& after == (AppView {
                dragging: after.dragging,
                grab_position: after.grab_position,
                position_left: after.position_left,
                position_top: after.position_top,
                ..app
            })
        }),
{
    let seen = gesture(app.dragging, app.grab_position, events);
    if seen.drag is Some {
        let to = seen.drag->0;
        law_where_a_drag_ends(app.position_left, seen.grab.x, to.x, app.max_left() as i32);
        law_where_a_drag_ends(app.position_top, seen.grab.y, to.y, app.max_top() as i32);
    }
}

/// `got` is the pixel closest to `wanted` 1/256 of one, of those from zero to `high`.
pub open spec fn ends_at(wanted: int, high: int, got: int) -> bool {
    &&& 0 <= got <= high
    &&& got > 0 ==> 256 * got - 128 <= wanted
    &&& got < high ==> wanted < 256 * got + 128
}

/// The view of a launcher holds just what its fields hold.
pub proof fn law_app_view(app: App)
    ensures
        app@.query == app.query@,
        app@.cursor_on == app.cursor_on,
        app@.results.len() == app.results@.len(),
        forall|i: int| 0 <= i < app.results@.len() ==> #[trigger] app@.results[i] == app.results@[i]@,
        app@.selected == app.selected,
        app@.renderer is Some <==> app.renderer is Some,
        app.renderer matches Some(renderer) ==> app@.renderer == Some(renderer@),
        app@.pointer == app.pointer && app@.keyboard == app.keyboard,
        app@.dragging == app.dragging && app@.grab_position == app.grab_position,
        app@.position_top == app.position_top && app@.position_left == app.position_left,
        app@.surface_width == app.surface_width && app@.surface_height == app.surface_height,
        app@.running == app.running,
{
}

/// The views of keys and effects hold just what they hold.
pub proof fn law_key_and_effect_views(event: KeyEvent, effect: Effect)
    ensures
        event@.keysym == event.keysym,
        event.utf8 is Some <==> event@.utf8 is Some,
        event.utf8 matches Some(text) ==> event@.utf8 == Some(text@),
        match effect {
            Effect::Nothing => effect@ == EffectView::Nothing,
            Effect::Launch(action) => effect@ == EffectView::Launch(action@),
            Effect::Redraw => effect@ == EffectView::Redraw,
            Effect::Resize { width, height } => effect@ == (EffectView::Resize { width, height }),
            Effect::Move { top, left } => effect@ == (EffectView::Move { top, left }),
        },
{
}

} // verus!
