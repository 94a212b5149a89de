//! The launcher: its query, its results, and how it answers keys, pointer and compositor.
pub mod drag;
pub mod laws;

use self::drag::{drag, dragged, far, gesture, is_far, read_gesture, PointerEvent, Position};
use crate::renderer::layout::{BAR_H, PANEL_PADDING, ROW_H};
use crate::renderer::{icons_view, new_renderer, Renderer, RendererView};
use crate::search::{results_view, Action, ActionView, ResultView, Search, SearchResult};
use crate::text::{contains_control, copy_option, has_control, list_view, option_view};
use vstd::prelude::*;

verus! {

/// Max result rows shown (scroll comes later).
pub const MAX_ROWS: usize = 10;

/// The size of the output, in logical pixels, which the layer shell works in.
pub const OUTPUT_WIDTH: i32 = 2867;

pub const OUTPUT_HEIGHT: i32 = 1200;

/// The size of the panel at the start.
pub const SURFACE_WIDTH: i32 = 400;

pub const SURFACE_HEIGHT: i32 = 200;

/// What the search bar shows while the query is empty.
pub const PLACEHOLDER: &'static str = "Search";

/// Codes of the keys that are commands; any other types its text.
pub const KEY_BACKSPACE: u32 = 0xff08;

pub const KEY_RETURN: u32 = 0xff0d;

pub const KEY_ESCAPE: u32 = 0xff1b;

pub const KEY_UP: u32 = 0xff52;

pub const KEY_DOWN: u32 = 0xff54;

pub const KEY_KP_ENTER: u32 = 0xff8d;

/// A key press: the code of the key and the text that it types.
pub struct KeyEvent {
    pub keysym: u32,
    pub utf8: Option<String>,
}

/// What a `KeyEvent` holds.
pub struct KeyView {
    pub keysym: u32,
    pub utf8: Option<Seq<char>>,
}

impl View for KeyEvent {
    type V = KeyView;

    open spec fn view(&self) -> KeyView {
        KeyView { keysym: self.keysym, utf8: option_view(self.utf8) }
    }
}

/// An input device of a seat.
#[derive(Clone, Copy, PartialEq, Eq, Structural, Debug)]
pub enum Capability {
    Pointer,
    Keyboard,
    Other,
}

/// What is to be done outside, after the launcher took note of an event.
pub enum Effect {
    Nothing,
    /// Start the program of a result.
    Launch(Action),
    /// Place the icons and draw a frame.
    Redraw,
    /// Ask the compositor for a surface of this size; it answers with a configure.
    Resize { width: u32, height: u32 },
    /// Ask the compositor to put the surface here.
    Move { top: i32, left: i32 },
}

/// What an `Effect` holds.
pub enum EffectView {
    Nothing,
    Launch(ActionView),
    Redraw,
    Resize { width: u32, height: u32 },
    Move { top: i32, left: i32 },
}

impl View for Effect {
    type V = EffectView;

    open spec fn view(&self) -> EffectView {
        match self {
            Effect::Nothing => EffectView::Nothing,
            Effect::Launch(action) => EffectView::Launch(action@),
            Effect::Redraw => EffectView::Redraw,
            Effect::Resize { width, height } => EffectView::Resize {
                width: *width,
                height: *height,
            },
            Effect::Move { top, left } => EffectView::Move { top: *top, left: *left },
        }
    }
}

/// The number of rows that are shown of `count` results.
pub open spec fn shown_rows(count: nat) -> nat {
    if count <= MAX_ROWS {
        count
    } else {
        MAX_ROWS as nat
    }
}

/// The height that the panel needs for this many rows (it grows downward).
pub open spec fn panel_height(rows: nat) -> int {
    if rows == 0 {
        BAR_H as int
    } else {
        BAR_H + rows * ROW_H + PANEL_PADDING
    }
}

/// What the launcher holds, apart from the search engine.
pub struct AppView {
    pub query: Seq<char>,
    pub cursor_on: bool,
    pub results: Seq<ResultView>,
    pub selected: nat,
    pub renderer: Option<RendererView>,
    pub pointer: bool,
    pub keyboard: bool,
    pub dragging: bool,
    pub grab_position: Position,
    pub position_top: i32,
    pub position_left: i32,
    pub surface_width: i32,
    pub surface_height: i32,
    pub running: bool,
}

impl AppView {
    /// The panel has a size, and what it shows is consistent.
    pub open spec fn wf(self) -> bool {
        &&& self.surface_width >= 0
        &&& self.surface_height >= 0
        &&& self.renderer matches Some(renderer) ==> renderer.wf()
    }

    /// The number of rows that are shown.
    pub open spec fn visible(self) -> nat {
        shown_rows(self.results.len())
    }

    /// The results that are shown.
    pub open spec fn rows(self) -> Seq<ResultView> {
        self.results.take(self.visible() as int)
    }

    /// Whether the selected row is one that is shown (or the first, where none is).
    pub open spec fn selection_is_visible(self) -> bool {
        self.selected == 0 || self.selected < self.visible()
    }

    /// The row to highlight.
    pub open spec fn highlighted(self) -> Option<usize> {
        if self.visible() == 0 {
            None
        } else if self.selected < self.visible() {
            Some(self.selected as usize)
        } else {
            Some((self.visible() - 1) as usize)
        }
    }

    /// What `renderer` shows once it is told the query, the results, the selection and the caret.
    pub open spec fn drawn_by(self, renderer: RendererView) -> RendererView {
        renderer.with_text(
            if self.query.len() == 0 {
                PLACEHOLDER@
            } else {
                self.query
            },
            self.query.len() == 0,
        ).with_results(
            self.rows().map_values(|row: ResultView| row.title),
            self.rows().map_values(|row: ResultView| subtitle_text(row)),
            self.rows().map_values(|row: ResultView| row.icon),
        ).with_selection(self.highlighted()).with_caret(self.cursor_on)
    }

    /// After telling the renderer, if there is one, what to show.
    pub open spec fn refreshed(self) -> AppView {
        AppView {
            renderer: match self.renderer {
                Some(renderer) => Some(self.drawn_by(renderer)),
                None => None,
            },
            ..self
        }
    }

    /// A frame is drawn if there is a renderer.
    pub open spec fn redraw(self) -> EffectView {
        if self.renderer is Some {
            EffectView::Redraw
        } else {
            EffectView::Nothing
        }
    }

    /// Whether the panel has to change its height to fit the results.
    pub open spec fn misfits(self) -> bool {
        panel_height(self.visible()) != self.surface_height
    }

    /// After fitting the panel to the results: a panel of the right height is refreshed, any other
    /// takes the height and waits for the compositor's configure.
    pub open spec fn fitted(self) -> AppView {
        if self.misfits() {
            AppView { surface_height: panel_height(self.visible()) as i32, ..self }
        } else {
            self.refreshed()
        }
    }

    /// What fitting the panel asks of the compositor.
    pub open spec fn fitting(self) -> EffectView {
        if self.misfits() {
            EffectView::Resize {
                width: self.surface_width as u32,
                height: panel_height(self.visible()) as u32,
            }
        } else {
            self.redraw()
        }
    }

    /// With these results: the first is selected, and the caret stays solid right after typing.
    pub open spec fn with_results(self, results: Seq<ResultView>) -> AppView {
        AppView { results, selected: 0, cursor_on: true, ..self }
    }

    /// The query after a key that edits it; `None` for any other key.
    pub open spec fn edited_query(self, event: KeyView) -> Option<Seq<char>> {
        if event.keysym == KEY_BACKSPACE {
            Some(
                if self.query.len() > 0 {
                    self.query.drop_last()
                } else {
                    self.query
                },
            )
        } else if is_command(event.keysym) {
            None
        } else {
            match event.utf8 {
                Some(text) => if text.len() > 0 && !has_control(text) {
                    Some(self.query + text)
                } else {
                    None
                },
                None => None,
            }
        }
    }

    /// Whether a key moves the selection, and to which row.
    pub open spec fn moved_selection(self, keysym: u32) -> Option<nat> {
        if keysym == KEY_UP && self.selected > 0 {
            Some((self.selected - 1) as nat)
        } else if keysym == KEY_DOWN && self.selected + 1 < self.visible() {
            Some(self.selected + 1)
        } else {
            None
        }
    }

    /// After a key that does not edit the query.
    pub open spec fn after_command(self, keysym: u32) -> AppView {
        if closes(keysym) {
            AppView { running: false, ..self }
        } else {
            match self.moved_selection(keysym) {
                Some(row) => (AppView { selected: row, ..self }).refreshed(),
                None => self,
            }
        }
    }

    /// What a key that does not edit the query calls for.
    pub open spec fn command_effect(self, keysym: u32) -> EffectView {
        if accepts(keysym) && self.selected < self.results.len() {
            EffectView::Launch(self.results[self.selected as int].action)
        } else if self.moved_selection(keysym) is Some {
            self.redraw()
        } else {
            EffectView::Nothing
        }
    }

    /// After a configure: there is a renderer, it has the size of the panel, and it shows the
    /// current state.
    pub open spec fn configured(self) -> AppView {
        let width = self.surface_width as u32;
        let height = self.surface_height as u32;
        let renderer = match self.renderer {
            Some(renderer) => renderer,
            None => new_renderer(width, height),
        };
        (AppView { renderer: Some(renderer.with_size(width, height)), ..self }).refreshed()
    }

    /// After the caret blinked.
    pub open spec fn blinked(self) -> AppView {
        AppView {
            cursor_on: !self.cursor_on,
            renderer: match self.renderer {
                Some(renderer) => Some(renderer.with_caret(!self.cursor_on)),
                None => None,
            },
            ..self
        }
    }

    /// The farthest to the right that the panel's left edge goes, and the lowest that its top
    /// edge goes.
    pub open spec fn max_left(self) -> int {
        if self.surface_width <= OUTPUT_WIDTH {
            OUTPUT_WIDTH - self.surface_width
        } else {
            0
        }
    }

    pub open spec fn max_top(self) -> int {
        if self.surface_height <= OUTPUT_HEIGHT {
            OUTPUT_HEIGHT - self.surface_height
        } else {
            0
        }
    }

    /// Whether these pointer events take the panel along.
    pub open spec fn is_dragged(self, events: Seq<PointerEvent>) -> bool {
        let seen = gesture(self.dragging, self.grab_position, events);
        seen.drag is Some && is_far(seen.grab, seen.drag->0)
    }

    /// The left and top edge of the panel after a frame of pointer events.
    pub open spec fn left_after(self, events: Seq<PointerEvent>) -> i32 {
        let seen = gesture(self.dragging, self.grab_position, events);
        if self.is_dragged(events) {
            dragged(self.position_left, seen.grab.x, (seen.drag->0).x, self.max_left())
        } else {
            self.position_left
        }
    }

    pub open spec fn top_after(self, events: Seq<PointerEvent>) -> i32 {
        let seen = gesture(self.dragging, self.grab_position, events);
        if self.is_dragged(events) {
            dragged(self.position_top, seen.grab.y, (seen.drag->0).y, self.max_top())
        } else {
            self.position_top
        }
    }

    /// Whether a frame of pointer events leaves the panel somewhere else than it was: it may be
    /// dragged and still stay, where the way rounds to nothing or an edge of the output holds it.
    pub open spec fn is_moved(self, events: Seq<PointerEvent>) -> bool {
        ||| self.left_after(events) != self.position_left
        ||| self.top_after(events) != self.position_top
    }

    /// After a frame of pointer events. Where the panel actually moved, the pointer holds it anew,
    /// at the place it was dragged to.
    pub open spec fn after_pointer(self, events: Seq<PointerEvent>) -> AppView {
        let seen = gesture(self.dragging, self.grab_position, events);
        AppView {
            dragging: seen.held && !seen.released,
            grab_position: if self.is_moved(events) {
                seen.drag->0
            } else {
                seen.grab
            },
            position_left: self.left_after(events),
            position_top: self.top_after(events),
            ..self
        }
    }

    /// What a frame of pointer events asks of the compositor.
    pub open spec fn pointer_effect(self, events: Seq<PointerEvent>) -> EffectView {
        if self.is_dragged(events) {
            EffectView::Move { top: self.top_after(events), left: self.left_after(events) }
        } else {
            EffectView::Nothing
        }
    }
}

/// The line below a result's name: its subtitle, or nothing.
pub open spec fn subtitle_text(row: ResultView) -> Seq<char> {
    match row.subtitle {
        Some(subtitle) => subtitle,
        None => Seq::empty(),
    }
}

/// Whether a key activates the selected result.
pub open spec fn accepts(keysym: u32) -> bool {
    keysym == KEY_RETURN || keysym == KEY_KP_ENTER
}

/// Whether a key closes the launcher.
pub open spec fn closes(keysym: u32) -> bool {
    keysym == KEY_ESCAPE || accepts(keysym)
}

/// Whether a key is a command, whatever text it types.
pub open spec fn is_command(keysym: u32) -> bool {
    closes(keysym) || keysym == KEY_UP || keysym == KEY_DOWN || keysym == KEY_BACKSPACE
}

/// The launcher.
pub struct App {
    /// Current search query text.
    pub query: String,
    /// Blinking caret visibility.
    pub cursor_on: bool,
    pub search: Search,
    pub results: Vec<SearchResult>,
    pub selected: usize,
    pub renderer: Option<Renderer>,
    /// Whether the seat's pointer and keyboard are held.
    pub pointer: bool,
    pub keyboard: bool,
    pub dragging: bool,
    pub grab_position: Position,
    pub position_top: i32,
    pub position_left: i32,
    pub surface_width: i32,
    pub surface_height: i32,
    pub running: bool,
}

/// What an optional renderer holds.
pub open spec fn renderer_view(renderer: Option<Renderer>) -> Option<RendererView> {
    match renderer {
        Some(renderer) => Some(renderer@),
        None => None,
    }
}

impl View for App {
    type V = AppView;

    open spec fn view(&self) -> AppView {
        AppView {
            query: self.query@,
            cursor_on: self.cursor_on,
            results: results_view(self.results@),
            selected: self.selected as nat,
            renderer: renderer_view(self.renderer),
            pointer: self.pointer,
            keyboard: self.keyboard,
            dragging: self.dragging,
            grab_position: self.grab_position,
            position_top: self.position_top,
            position_left: self.position_left,
            surface_width: self.surface_width,
            surface_height: self.surface_height,
            running: self.running,
        }
    }
}

/// The launcher at the start: empty, in the middle of the output.
pub open spec fn new_app() -> AppView {
    AppView {
        query: Seq::empty(),
        cursor_on: true,
        results: Seq::empty(),
        selected: 0,
        renderer: None,
        pointer: false,
        keyboard: false,
        dragging: false,
        grab_position: Position { x: 0, y: 0 },
        position_top: ((OUTPUT_HEIGHT - SURFACE_HEIGHT) / 2) as i32,
        position_left: ((OUTPUT_WIDTH - SURFACE_WIDTH) / 2) as i32,
        surface_width: SURFACE_WIDTH,
        surface_height: SURFACE_HEIGHT,
        running: true,
    }
}

impl App {
    /// The panel has a size, what it shows is consistent, and the search engine is fit for use.
    pub open spec fn wf(&self) -> bool {
        self@.wf() && self.search.wf()
    }

    /// A launcher over this search engine.
    pub fn new(search: Search) -> (app: Self)
        requires
            search.wf(),
        ensures
            app.wf(),
            app@ == new_app(),
            app.search == search,
    {
        let app = App {
            query: String::new(),
            cursor_on: true,
            search,
            results: Vec::new(),
            selected: 0,
            renderer: None,
            pointer: false,
            keyboard: false,
            dragging: false,
            grab_position: Position { x: 0, y: 0 },
            position_top: (OUTPUT_HEIGHT - SURFACE_HEIGHT) / 2,
            position_left: (OUTPUT_WIDTH - SURFACE_WIDTH) / 2,
            surface_width: SURFACE_WIDTH,
            surface_height: SURFACE_HEIGHT,
            running: true,
        };
        assert(app@.results =~= Seq::empty());
        app
    }

    /// The number of rows that are shown.
    fn visible_rows(&self) -> (rows: usize)
        ensures
            rows == self@.visible(),
    {
        if self.results.len() <= MAX_ROWS {
            self.results.len()
        } else {
            MAX_ROWS
        }
    }

    /// Height the panel needs to show the current results (grows downward).
    pub fn target_height(&self) -> (height: i32)
        ensures
            height == panel_height(self@.visible()),
    {
        let rows: usize = self.visible_rows();
        if rows == 0 {
            BAR_H as i32
        } else {
            BAR_H as i32 + rows as i32 * ROW_H as i32 + PANEL_PADDING as i32
        }
    }

    /// Push the current query + results to the renderer, for it to be drawn.
    pub fn refresh(&mut self) -> (effect: Effect)
        requires
            old(self).wf(),
        ensures
            final(self).wf(),
            final(self)@ == old(self)@.refreshed(),
            final(self).search == old(self).search,
            effect@ == old(self)@.redraw(),
    {
        let ghost start = self@;
        let renderer: Option<Renderer> = self.renderer.take();
        match renderer {
            None => Effect::Nothing,
            Some(renderer) => {
                let mut renderer: Renderer = renderer;
                let visible: usize = self.visible_rows();
                let ghost rows = start.rows();
                let mut titles: Vec<String> = Vec::new();
                let mut subtitles: Vec<String> = Vec::new();
                let mut icons: Vec<Option<String>> = Vec::new();
                let mut i: usize = 0;
                while i < visible
                    invariant
                        i <= visible <= self.results@.len(),
                        rows == results_view(self.results@).take(visible as int),
                        list_view(titles@) == rows.take(i as int).map_values(
                            |row: ResultView| row.title,
                        ),
                        list_view(subtitles@) == rows.take(i as int).map_values(
                            |row: ResultView| subtitle_text(row),
                        ),
                        icons_view(icons@) == rows.take(i as int).map_values(
                            |row: ResultView| row.icon,
                        ),
                    decreases visible - i,
                {
                    let result: &SearchResult = &self.results[i];
                    let ghost before = rows.take(i as int);
                    let ghost after = rows.take(i + 1);
                    let ghost (old_titles, old_subtitles, old_icons) = (
                        titles@,
                        subtitles@,
                        icons@,
                    );
                    assert(after =~= before.push(result@));
                    titles.push(result.title.clone());
                    let subtitle: String = match &result.subtitle {
                        Some(subtitle) => subtitle.clone(),
                        None => String::new(),
                    };
                    subtitles.push(subtitle);
                    icons.push(copy_option(&result.icon));
                    proof {
                        assert(subtitle@ =~= subtitle_text(result@));
                        assert(list_view(titles@) =~= list_view(old_titles).push(result@.title));
                        assert(list_view(titles@) =~= after.map_values(
                            |row: ResultView| row.title,
                        ));
                        assert(list_view(subtitles@) =~= list_view(old_subtitles).push(
                            subtitle_text(result@),
                        ));
                        assert(list_view(subtitles@) =~= after.map_values(
                            |row: ResultView| subtitle_text(row),
                        ));
                        assert(icons_view(icons@) =~= icons_view(old_icons).push(result@.icon));
                        assert(icons_view(icons@) =~= after.map_values(
                            |row: ResultView| row.icon,
                        ));
                    }
                    i = i + 1;
                }
                assert(rows.take(visible as int) =~= rows);
                let selection: Option<usize> = if visible == 0 {
                    None
                } else if self.selected < visible {
                    Some(self.selected)
                } else {
                    Some(visible - 1)
                };
                if self.query.as_str().is_empty() {
                    renderer.set_text(PLACEHOLDER, true);
                } else {
                    renderer.set_text(self.query.as_str(), false);
                }
                renderer.set_results(titles.as_slice(), subtitles.as_slice(), icons.as_slice());
                renderer.set_selection(selection);
                renderer.set_caret(self.cursor_on);
                self.renderer = Some(renderer);
                Effect::Redraw
            },
        }
    }

    /// Resize the panel to fit the results, or just redraw if the height is
    /// unchanged. On resize the compositor's configure drives the redraw.
    pub fn sync_panel(&mut self) -> (effect: Effect)
        requires
            old(self).wf(),
        ensures
            final(self).wf(),
            final(self)@ == old(self)@.fitted(),
            final(self).search == old(self).search,
            effect@ == old(self)@.fitting(),
    {
        let target: i32 = self.target_height();
        if target != self.surface_height {
            self.surface_height = target;
            Effect::Resize { width: self.surface_width as u32, height: target as u32 }
        } else {
            self.refresh()
        }
    }

    /// Takes these results as those of the current query.
    pub fn show_results(&mut self, results: Vec<SearchResult>) -> (effect: Effect)
        requires
            old(self).wf(),
        ensures
            final(self).wf(),
            final(self)@ == old(self)@.with_results(results_view(results@)).fitted(),
            final(self).search == old(self).search,
            effect@ == old(self)@.with_results(results_view(results@)).fitting(),
    {
        self.results = results;
        self.selected = 0;
        self.cursor_on = true;
        self.sync_panel()
    }

    /// Re-run the search after the query changed, resize the panel and redraw.
    pub fn on_query_changed(&mut self) -> (effect: Effect)
        requires
            old(self).wf(),
        ensures
            final(self).wf(),
            old(self).search.answers(old(self)@.query, final(self)@.results),
            final(self).search.has_answered(old(self).search, old(self)@.query),
            final(self)@ == old(self)@.with_results(final(self)@.results).fitted(),
            effect@ == old(self)@.with_results(final(self)@.results).fitting(),
    {
        let results: Vec<SearchResult> = self.search.query(self.query.as_str());
        self.show_results(results)
    }

    /// Apply a key press to the search query. Shared by press and key-repeat.
    pub fn handle_key(&mut self, event: &KeyEvent) -> (effect: Effect)
        requires
            old(self).wf(),
        ensures
            final(self).wf(),
            match old(self)@.edited_query(event@) {
                Some(query) => {
                    let typed = (AppView { query, ..old(self)@ }).with_results(final(self)@.results);
                    &&& old(self).search.answers(query, final(self)@.results)
                    &&& final(self).search.has_answered(old(self).search, query)
                    &&& final(self)@ == typed.fitted()
                    &&& effect@ == typed.fitting()
                },
                None => {
                    &&& final(self).search == old(self).search
                    &&& final(self)@ == old(self)@.after_command(event.keysym)
                    &&& effect@ == old(self)@.command_effect(event.keysym)
                },
            },
    {
        let keysym: u32 = event.keysym;
        if keysym == KEY_ESCAPE {
            // For now Escape closes the launcher; later it will just hide it.
            self.running = false;
            Effect::Nothing
        } else if keysym == KEY_RETURN || keysym == KEY_KP_ENTER {
            self.running = false;
            if self.selected < self.results.len() {
                assert(old(self)@.results[self.selected as int]
                    == self.results@[self.selected as int]@);
                Effect::Launch(self.results[self.selected].action.clone())
            } else {
                Effect::Nothing
            }
        } else if keysym == KEY_UP {
            if self.selected > 0 {
                self.selected = self.selected - 1;
                self.refresh()
            } else {
                Effect::Nothing
            }
        } else if keysym == KEY_DOWN {
            let visible: usize = self.visible_rows();
            if visible > 0 && self.selected < visible - 1 {
                self.selected = self.selected + 1;
                self.refresh()
            } else {
                Effect::Nothing
            }
        } else if keysym == KEY_BACKSPACE {
            let _ = self.query.pop();
            self.on_query_changed()
        } else {
            match &event.utf8 {
                Some(text) => {
                    if !text.as_str().is_empty() && !contains_control(text.as_str()) {
                        self.query.append(text.as_str());
                        self.on_query_changed()
                    } else {
                        Effect::Nothing
                    }
                },
                None => Effect::Nothing,
            }
        }
    }

    /// Flip the caret (called on the blink timer) and redraw.
    pub fn toggle_cursor(&mut self) -> (effect: Effect)
        requires
            old(self).wf(),
        ensures
            final(self).wf(),
            final(self)@ == old(self)@.blinked(),
            final(self).search == old(self).search,
            effect@ == old(self)@.redraw(),
    {
        self.cursor_on = !self.cursor_on;
        let renderer: Option<Renderer> = self.renderer.take();
        match renderer {
            Some(renderer) => {
                let mut renderer: Renderer = renderer;
                renderer.set_caret(self.cursor_on);
                self.renderer = Some(renderer);
                Effect::Redraw
            },
            None => Effect::Nothing,
        }
    }

    /// There is a renderer from the first configure on.
    pub fn ensure_renderer(&mut self)
        requires
            old(self).wf(),
        ensures
            final(self).wf(),
            final(self).search == old(self).search,
            final(self)@ == (AppView {
                renderer: match old(self)@.renderer {
                    Some(renderer) => Some(renderer),
                    None => Some(
                        new_renderer(
                            old(self)@.surface_width as u32,
                            old(self)@.surface_height as u32,
                        ),
                    ),
                },
                ..old(self)@
            }),
    {
        if self.renderer.is_none() {
            self.renderer = Some(
                Renderer::new(self.surface_width as u32, self.surface_height as u32),
            );
        }
    }

    /// The compositor settled the surface's size: fit the renderer to it and redraw.
    pub fn configure(&mut self) -> (effect: Effect)
        requires
            old(self).wf(),
        ensures
            final(self).wf(),
            final(self)@ == old(self)@.configured(),
            final(self).search == old(self).search,
            effect@ == EffectView::Redraw,
    {
        self.ensure_renderer();
        let renderer: Option<Renderer> = self.renderer.take();
        match renderer {
            Some(renderer) => {
                let mut renderer: Renderer = renderer;
                let _ = renderer.resize(self.surface_width as u32, self.surface_height as u32);
                self.renderer = Some(renderer);
            },
            None => {},
        }
        self.refresh()
    }

    /// The compositor closed the surface.
    pub fn closed(&mut self)
        requires
            old(self).wf(),
        ensures
            final(self).wf(),
            final(self)@ == (AppView { running: false, ..old(self)@ }),
            final(self).search == old(self).search,
    {
        self.running = false;
    }

    /// The seat has a new device. Returns whether to bind it: one pointer and one keyboard are
    /// held at a time.
    pub fn new_capability(&mut self, capability: Capability) -> (bind: bool)
        requires
            old(self).wf(),
        ensures
            final(self).wf(),
            final(self).search == old(self).search,
            final(self)@ == (AppView {
                pointer: old(self)@.pointer || capability == Capability::Pointer,
                keyboard: old(self)@.keyboard || capability == Capability::Keyboard,
                ..old(self)@
            }),
            bind == (capability == Capability::Pointer && !old(self)@.pointer || capability
                == Capability::Keyboard && !old(self)@.keyboard),
    {
        match capability {
            Capability::Pointer => {
                let bind: bool = !self.pointer;
                self.pointer = true;
                bind
            },
            Capability::Keyboard => {
                let bind: bool = !self.keyboard;
                self.keyboard = true;
                bind
            },
            Capability::Other => false,
        }
    }

    /// The seat lost a device. Returns whether to release it; without a pointer nothing is
    /// dragged.
    pub fn remove_capability(&mut self, capability: Capability) -> (release: bool)
        requires
            old(self).wf(),
        ensures
            final(self).wf(),
            final(self).search == old(self).search,
            final(self)@ == (AppView {
                pointer: old(self)@.pointer && capability != Capability::Pointer,
                keyboard: old(self)@.keyboard && capability != Capability::Keyboard,
                dragging: old(self)@.dragging && capability != Capability::Pointer,
                ..old(self)@
            }),
            release == (capability == Capability::Pointer && old(self)@.pointer || capability
                == Capability::Keyboard && old(self)@.keyboard),
    {
        match capability {
            Capability::Pointer => {
                let release: bool = self.pointer;
                self.pointer = false;
                self.dragging = false;
                release
            },
            Capability::Keyboard => {
                let release: bool = self.keyboard;
                self.keyboard = false;
                release
            },
            Capability::Other => false,
        }
    }

    /// A frame of pointer events: the left button drags the panel.
    pub fn pointer_frame(&mut self, events: &[PointerEvent]) -> (effect: Effect)
        requires
            old(self).wf(),
        ensures
            final(self).wf(),
            final(self)@ == old(self)@.after_pointer(events@),
            final(self).search == old(self).search,
            effect@ == old(self)@.pointer_effect(events@),
    {
        let seen = read_gesture(self.dragging, self.grab_position, events);
        self.dragging = seen.held && !seen.released;
        self.grab_position = seen.grab;
        match seen.drag {
            Some(to) => {
                if far(seen.grab, to) {
                    let max_left: i32 = if self.surface_width <= OUTPUT_WIDTH {
                        OUTPUT_WIDTH - self.surface_width
                    } else {
                        0
                    };
                    let max_top: i32 = if self.surface_height <= OUTPUT_HEIGHT {
                        OUTPUT_HEIGHT - self.surface_height
                    } else {
                        0
                    };
                    let left: i32 = drag(self.position_left, seen.grab.x, to.x, max_left);
                    let top: i32 = drag(self.position_top, seen.grab.y, to.y, max_top);
                    // Update the reference only when the surface actually moved,
                    // so sub-threshold motion accumulates instead of being lost.
                    if left != self.position_left || top != self.position_top {
                        self.grab_position = to;
                    }
                    self.position_left = left;
                    self.position_top = top;
                    Effect::Move { top: self.position_top, left: self.position_left }
                } else {
                    Effect::Nothing
                }
            },
            None => Effect::Nothing,
        }
    }
}

} // verus!
