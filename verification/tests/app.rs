use hks_shell::app::drag::{drag, far, read_gesture, PointerEvent, PointerEventKind, Position, BTN_LEFT};
use hks_shell::app::{
    App, Capability, Effect, KeyEvent, KEY_BACKSPACE, KEY_DOWN, KEY_ESCAPE, KEY_KP_ENTER, KEY_RETURN,
    KEY_UP,
};
use hks_shell::search::desktop::DesktopFile;
use hks_shell::search::{Action, Search, SearchResult};

fn app_file(name: &str) -> DesktopFile {
    DesktopFile {
        path: format!("/usr/share/applications/{name}.desktop"),
        text: format!(
            "[Desktop Entry]\nType=Application\nName={name}\nExec={name} --go %U\nIcon=icon-{name}\n"
        ),
    }
}

fn launcher(names: &[&str]) -> App {
    let files: Vec<DesktopFile> = names.iter().map(|name| app_file(name)).collect();
    App::new(Search::new(&files, &[]))
}

fn many(count: usize) -> App {
    let names: Vec<String> = (0..count).map(|i| format!("app{i:02}")).collect();
    let names: Vec<&str> = names.iter().map(String::as_str).collect();
    launcher(&names)
}

fn key(keysym: u32) -> KeyEvent {
    KeyEvent { keysym, utf8: None }
}

/// A key that types this text.
fn typed(text: &str) -> KeyEvent {
    KeyEvent { keysym: 0x61, utf8: Some(text.to_string()) }
}

fn result(title: &str) -> SearchResult {
    SearchResult {
        title: title.to_string(),
        subtitle: Some(format!("about {title}")),
        icon: None,
        score: 1,
        action: Action::Launch { program: title.to_string(), args: Vec::new() },
    }
}

/// The pointer at these pixels, with the panel under it.
fn at(x: f64, y: f64, kind: PointerEventKind) -> PointerEvent {
    let position = Position { x: (x * 256.0) as i32, y: (y * 256.0) as i32 };
    PointerEvent { on_panel: true, position, kind }
}

fn press(x: f64, y: f64) -> PointerEvent {
    at(x, y, PointerEventKind::Press { button: BTN_LEFT })
}

fn release(x: f64, y: f64) -> PointerEvent {
    at(x, y, PointerEventKind::Release { button: BTN_LEFT })
}

fn motion(x: f64, y: f64) -> PointerEvent {
    at(x, y, PointerEventKind::Motion)
}

fn place(app: &App) -> (i32, i32) {
    (app.position_left, app.position_top)
}

#[test]
fn the_launcher_starts_in_the_middle() {
    let app = launcher(&["alpha"]);
    assert_eq!(place(&app), (1233, 500));
    assert_eq!((app.surface_width, app.surface_height), (400, 200));
    assert_eq!(app.query, "");
    assert!(app.results.is_empty() && app.renderer.is_none());
    assert!(app.running && app.cursor_on && !app.dragging);
    assert!(!app.pointer && !app.keyboard);
}

#[test]
fn the_first_configure_makes_a_renderer() {
    let mut app = launcher(&["alpha"]);
    assert!(matches!(app.configure(), Effect::Redraw));
    let renderer = app.renderer.as_ref().unwrap();
    assert_eq!((renderer.width, renderer.height), (480, 240));
    assert_eq!(renderer.text, "Search");
    assert_eq!(renderer.text_color.alpha, 180);
    assert_eq!(renderer.sel_height, 0);
    assert!(renderer.caret_on);
}

#[test]
fn a_renderer_is_made_once() {
    let mut app = launcher(&["alpha"]);
    app.ensure_renderer();
    app.renderer.as_mut().unwrap().set_text("kept", false);
    app.ensure_renderer();
    assert_eq!(app.renderer.as_ref().unwrap().text, "kept");
    assert_eq!(app.renderer.as_ref().unwrap().width, 480);
}

#[test]
fn typing_searches_and_fits_the_panel() {
    let mut app = launcher(&["alpha", "beta", "alps"]);
    app.configure();
    let effect = app.handle_key(&typed("a"));
    assert_eq!(app.query, "a");
    assert_eq!(app.results.len(), 3);
    assert!(matches!(effect, Effect::Resize { width: 400, height: 210 }));
    assert_eq!(app.surface_height, 210);
    assert_eq!(app.renderer.as_ref().unwrap().text, "Search");

    assert!(matches!(app.configure(), Effect::Redraw));
    let renderer = app.renderer.as_ref().unwrap();
    assert_eq!(renderer.text, "a");
    assert_eq!(renderer.text_color.alpha, 255);
    assert_eq!((renderer.width, renderer.height), (480, 252));
    assert_eq!((renderer.sel_top, renderer.sel_height), (58, 48));
    assert_eq!(renderer.row_count, 3);

    assert!(matches!(app.handle_key(&typed("l")), Effect::Resize { width: 400, height: 162 }));
    assert_eq!(app.results.len(), 2);
}

#[test]
fn a_panel_that_fits_is_redrawn_at_once() {
    let mut app = launcher(&["alpha", "alps"]);
    app.configure();
    app.handle_key(&typed("al"));
    app.configure();
    let effect = app.handle_key(&typed("p"));
    assert!(matches!(effect, Effect::Redraw));
    assert_eq!(app.renderer.as_ref().unwrap().text, "alp");
}

#[test]
fn without_a_renderer_nothing_is_drawn() {
    let mut app = launcher(&["alpha"]);
    assert!(matches!(app.refresh(), Effect::Nothing));
    assert!(matches!(app.toggle_cursor(), Effect::Nothing));
    assert!(!app.cursor_on);
    assert!(matches!(app.handle_key(&key(KEY_DOWN)), Effect::Nothing));
}

#[test]
fn backspace_undoes_typing() {
    let mut app = launcher(&["alpha"]);
    app.handle_key(&typed("al"));
    app.handle_key(&typed("é"));
    assert_eq!(app.query, "alé");
    assert!(app.results.is_empty());
    app.handle_key(&key(KEY_BACKSPACE));
    assert_eq!(app.query, "al");
    assert_eq!(app.results.len(), 1);
    app.handle_key(&key(KEY_BACKSPACE));
    app.handle_key(&key(KEY_BACKSPACE));
    assert_eq!(app.query, "");
    assert!(app.results.is_empty());
    assert_eq!(app.surface_height, 50);
    app.handle_key(&key(KEY_BACKSPACE));
    assert_eq!(app.query, "");
}

#[test]
fn backspace_ignores_its_text() {
    let mut app = launcher(&["alpha"]);
    app.handle_key(&typed("al"));
    app.handle_key(&KeyEvent { keysym: KEY_BACKSPACE, utf8: Some("\u{8}".to_string()) });
    assert_eq!(app.query, "a");
}

#[test]
fn control_characters_are_not_typed() {
    let mut app = launcher(&["alpha"]);
    app.handle_key(&typed("a"));
    for event in [typed(""), typed("\u{1b}"), typed("x\ty"), typed("\u{7f}"), key(0xffe1)] {
        assert!(matches!(app.handle_key(&event), Effect::Nothing));
        assert_eq!(app.query, "a");
        assert!(app.running);
    }
}

#[test]
fn the_selection_moves_within_the_shown_rows() {
    let mut app = many(15);
    app.configure();
    app.handle_key(&typed("app"));
    app.configure();
    assert_eq!(app.results.len(), 15);
    assert_eq!(app.surface_height, 546);
    assert_eq!(app.renderer.as_ref().unwrap().row_count, 10);
    assert!(matches!(app.handle_key(&key(KEY_UP)), Effect::Nothing));
    assert_eq!(app.selected, 0);
    for row in 1..10 {
        assert!(matches!(app.handle_key(&key(KEY_DOWN)), Effect::Redraw));
        assert_eq!(app.selected, row);
        assert_eq!(app.renderer.as_ref().unwrap().sel_top, 58 + 48 * row as u128);
    }
    assert!(matches!(app.handle_key(&key(KEY_DOWN)), Effect::Nothing));
    assert_eq!(app.selected, 9);
    assert!(matches!(app.handle_key(&key(KEY_UP)), Effect::Redraw));
    assert_eq!(app.selected, 8);
    app.handle_key(&typed("1"));
    assert_eq!(app.selected, 0);
}

#[test]
fn down_undoes_up() {
    let mut app = many(3);
    app.configure();
    app.handle_key(&typed("app"));
    app.configure();
    app.handle_key(&key(KEY_DOWN));
    app.handle_key(&key(KEY_UP));
    assert_eq!(app.selected, 0);
    assert_eq!(app.renderer.as_ref().unwrap().sel_top, 58);
}

#[test]
fn enter_launches_the_selected_result() {
    for enter in [KEY_RETURN, KEY_KP_ENTER] {
        let mut app = launcher(&["alpha", "beta"]);
        app.handle_key(&typed("a"));
        app.handle_key(&key(KEY_DOWN));
        let expected = app.results[1].title.clone();
        match app.handle_key(&key(enter)) {
            Effect::Launch(Action::Launch { program, args }) => {
                assert_eq!(program, expected);
                assert_eq!(args, ["--go".to_string()]);
            }
            _ => panic!("nothing launched"),
        }
        assert!(!app.running);
    }
}

#[test]
fn enter_without_results_only_closes() {
    let mut app = launcher(&["alpha"]);
    assert!(matches!(app.handle_key(&key(KEY_RETURN)), Effect::Nothing));
    assert!(!app.running);
}

#[test]
fn escape_closes() {
    let mut app = launcher(&["alpha"]);
    app.handle_key(&typed("a"));
    assert!(matches!(app.handle_key(&key(KEY_ESCAPE)), Effect::Nothing));
    assert!(!app.running);
    assert_eq!(app.query, "a");
}

#[test]
fn a_closed_surface_ends_the_launcher() {
    let mut app = launcher(&["alpha"]);
    app.closed();
    assert!(!app.running);
}

#[test]
fn results_are_shown_with_names_subtitles_and_icons() {
    let mut app = launcher(&["alpha"]);
    app.configure();
    let mut plain = result("two");
    plain.subtitle = None;
    plain.icon = Some("pic".to_string());
    let effect = app.show_results(vec![result("one"), plain]);
    assert!(matches!(effect, Effect::Resize { width: 400, height: 162 }));
    app.configure();
    let renderer = app.renderer.as_mut().unwrap();
    assert_eq!(renderer.titles, "one\ntwo");
    assert_eq!(renderer.subtitles, "about one\n");
    assert_eq!(renderer.next_icon(), Some("pic".to_string()));
}

#[test]
fn the_panel_is_as_high_as_its_rows() {
    let mut app = launcher(&[]);
    assert_eq!(app.target_height(), 50);
    for rows in 1..13usize {
        app.results = (0..rows).map(|i| result(&i.to_string())).collect();
        let shown = rows.min(10);
        assert_eq!(app.target_height(), (50.0f32 + shown as f32 * 48.0f32 + 16.0) as i32);
        assert!(58 + 48 * shown as i32 <= app.target_height());
    }
}

#[test]
fn a_fitted_panel_asks_for_no_other_size() {
    let mut app = launcher(&["alpha"]);
    app.configure();
    assert!(matches!(app.sync_panel(), Effect::Resize { width: 400, height: 50 }));
    assert!(matches!(app.sync_panel(), Effect::Redraw));
}

#[test]
fn a_changed_query_is_searched_anew() {
    let mut app = launcher(&["alpha"]);
    app.query = "alp".to_string();
    app.selected = 3;
    app.cursor_on = false;
    app.on_query_changed();
    assert_eq!(app.results.len(), 1);
    assert_eq!(app.selected, 0);
    assert!(app.cursor_on);
}

#[test]
fn refreshing_twice_is_refreshing_once() {
    let mut app = many(2);
    app.configure();
    app.handle_key(&typed("app"));
    app.configure();
    let shown = |app: &App| {
        let renderer = app.renderer.as_ref().unwrap();
        (renderer.text.clone(), renderer.titles.clone(), renderer.sel_top, renderer.row_count)
    };
    let once = shown(&app);
    app.refresh();
    assert_eq!(shown(&app), once);
}

#[test]
fn the_caret_blinks() {
    let mut app = launcher(&["alpha"]);
    app.configure();
    assert!(matches!(app.toggle_cursor(), Effect::Redraw));
    assert!(!app.cursor_on && !app.renderer.as_ref().unwrap().caret_on);
    app.toggle_cursor();
    assert!(app.cursor_on && app.renderer.as_ref().unwrap().caret_on);
}

#[test]
fn one_pointer_and_one_keyboard_are_held() {
    let mut app = launcher(&["alpha"]);
    assert!(app.new_capability(Capability::Pointer));
    assert!(!app.new_capability(Capability::Pointer));
    assert!(app.new_capability(Capability::Keyboard));
    assert!(!app.new_capability(Capability::Keyboard));
    assert!(!app.new_capability(Capability::Other));
    assert!(app.pointer && app.keyboard);
    assert!(!app.remove_capability(Capability::Other));
    assert!(app.remove_capability(Capability::Keyboard));
    assert!(!app.remove_capability(Capability::Keyboard));
    app.pointer_frame(&[press(1.0, 1.0)]);
    assert!(app.dragging);
    assert!(app.remove_capability(Capability::Pointer));
    assert!(!app.dragging && !app.pointer && !app.keyboard);
}

#[test]
fn the_left_button_drags_the_panel() {
    let mut app = launcher(&["alpha"]);
    assert!(matches!(app.pointer_frame(&[press(10.0, 10.0)]), Effect::Nothing));
    assert!(app.dragging);
    let effect = app.pointer_frame(&[motion(13.0, 8.5)]);
    assert!(matches!(effect, Effect::Move { top: 499, left: 1236 }));
    assert_eq!(place(&app), (1236, 499));
    assert_eq!(app.grab_position, Position { x: 13 * 256, y: 8 * 256 + 128 });
    let effect = app.pointer_frame(&[motion(14.0, 8.5), release(14.0, 8.5)]);
    assert!(matches!(effect, Effect::Move { top: 499, left: 1237 }));
    assert!(!app.dragging);
    assert!(matches!(app.pointer_frame(&[motion(90.0, 90.0)]), Effect::Nothing));
    assert_eq!(place(&app), (1237, 499));
}

#[test]
fn a_frame_may_hold_a_whole_drag() {
    let mut app = launcher(&["alpha"]);
    let frame = [press(0.0, 0.0), motion(5.0, 5.0), motion(7.0, 9.0), release(7.0, 9.0)];
    assert!(matches!(app.pointer_frame(&frame), Effect::Move { top: 509, left: 1240 }));
    assert!(!app.dragging);
}

#[test]
fn only_the_left_button_on_the_panel_drags() {
    let mut app = launcher(&["alpha"]);
    let right = at(0.0, 0.0, PointerEventKind::Press { button: BTN_LEFT + 1 });
    let elsewhere = PointerEvent { on_panel: false, ..press(0.0, 0.0) };
    let other = at(0.0, 0.0, PointerEventKind::Other);
    app.pointer_frame(&[right, elsewhere, other, motion(50.0, 50.0)]);
    assert!(!app.dragging);
    assert_eq!(place(&app), (1233, 500));
    assert_eq!(app.grab_position, Position { x: 0, y: 0 });
}

#[test]
fn small_motions_add_up() {
    let mut app = launcher(&["alpha"]);
    app.pointer_frame(&[press(10.0, 10.0)]);
    assert!(matches!(app.pointer_frame(&[motion(10.25, 10.0)]), Effect::Nothing));
    assert_eq!(app.grab_position, Position { x: 2560, y: 2560 });
    assert!(matches!(app.pointer_frame(&[motion(10.5, 10.0)]), Effect::Move { top: 500, left: 1234 }));
}

#[test]
fn motion_that_rounds_to_nothing_is_not_lost() {
    let mut app = launcher(&["alpha"]);
    (app.position_left, app.position_top) = (100, 100);
    app.pointer_frame(&[press(10.0, 10.0)]);
    let held = Position { x: 2560, y: 2560 };
    // 99.5 rounds to 100.
    let effect = app.pointer_frame(&[motion(9.5, 10.0)]);
    assert!(matches!(effect, Effect::Move { top: 100, left: 100 }));
    assert_eq!(place(&app), (100, 100));
    assert_eq!(app.grab_position, held);
    app.pointer_frame(&[motion(9.25, 10.0)]);
    assert_eq!(place(&app), (99, 100));
    assert_eq!(app.grab_position, Position { x: 2368, y: 2560 });
}

#[test]
fn motion_against_an_edge_is_not_lost() {
    let mut app = launcher(&["alpha"]);
    (app.position_left, app.position_top) = (0, 100);
    app.pointer_frame(&[press(10.0, 10.0), motion(4.0, 10.0)]);
    assert_eq!(place(&app), (0, 100));
    assert_eq!(app.grab_position, Position { x: 2560, y: 2560 });
    app.pointer_frame(&[motion(12.0, 10.0)]);
    assert_eq!(place(&app), (2, 100));
}

#[test]
fn frames_that_leave_the_panel_join_the_next() {
    for first in [motion(10.25, 10.0), motion(9.5, 10.0), motion(9.5, 9.5)] {
        let second = motion(17.0, 3.25);
        let mut apart = launcher(&["alpha"]);
        let mut joined = launcher(&["alpha"]);
        apart.pointer_frame(&[press(10.0, 10.0)]);
        joined.pointer_frame(&[press(10.0, 10.0)]);
        apart.pointer_frame(&[first]);
        assert_eq!(place(&apart), (1233, 500));
        apart.pointer_frame(&[second]);
        joined.pointer_frame(&[first, second]);
        assert_eq!(place(&apart), place(&joined));
        assert_eq!(apart.grab_position, joined.grab_position);
    }
}

#[test]
fn the_panel_stays_on_the_output() {
    let mut app = launcher(&["alpha"]);
    app.pointer_frame(&[press(0.0, 0.0), motion(-5000.0, 5000.0)]);
    assert_eq!(place(&app), (0, 1000));
    app.pointer_frame(&[press(0.0, 0.0), motion(5000.0, -5000.0)]);
    assert_eq!(place(&app), (2467, 0));
    app.surface_width = 3000;
    app.pointer_frame(&[press(0.0, 0.0), motion(5.0, 5.0)]);
    assert_eq!(place(&app), (0, 5));
}

#[test]
fn drags_are_those_of_floating_point() {
    let mut state: u64 = 99;
    let mut next = |range: i64| {
        state = state.wrapping_mul(6364136223846793005).wrapping_add(1442695040888963407);
        ((state >> 16) as i64).rem_euclid(2 * range + 1) - range
    };
    for _ in 0..200_000 {
        let position = next(4000) as i32;
        let (grab, pointer) = (next(1 << 20) as i32, next(1 << 20) as i32);
        let high = next(3000).unsigned_abs() as i32;
        let delta = pointer as f64 / 256.0 - grab as f64 / 256.0;
        let expected = ((position as f64 + delta).round() as i32).clamp(0, high);
        assert_eq!(drag(position, grab, pointer, high), expected);
        let here = Position { x: grab, y: 0 };
        let there = Position { x: pointer, y: 0 };
        assert_eq!(far(here, there), delta.abs() >= 0.5);
        assert_eq!(far(Position { x: 0, y: grab }, Position { x: 0, y: pointer }), delta.abs() >= 0.5);
    }
    for position in [i32::MIN, -1, 0, 1, i32::MAX] {
        for pointer in [i32::MIN, 0, i32::MAX] {
            let delta = pointer as f64 / 256.0 - i32::MIN as f64 / 256.0;
            let expected = ((position as f64 + delta).round() as i32).clamp(0, 2467);
            assert_eq!(drag(position, i32::MIN, pointer, 2467), expected);
        }
    }
}

#[test]
fn half_pixels_round_away_from_zero() {
    assert_eq!(drag(10, 0, 128, 100), 11);
    assert_eq!(drag(10, 0, 127, 100), 10);
    assert_eq!(drag(10, 0, -128, 100), 10);
    assert_eq!(drag(10, 0, -129, 100), 9);
    assert_eq!(drag(10, 50, 50, 100), 10);
}

#[test]
fn gestures_are_read_in_order() {
    let origin = Position { x: 0, y: 0 };
    let frame = [motion(1.0, 1.0), press(2.0, 2.0), motion(3.0, 3.0), press(4.0, 4.0)];
    let read = read_gesture(false, origin, &frame);
    assert!(read.held && !read.released);
    assert_eq!(read.grab, Position { x: 1024, y: 1024 });
    assert_eq!(read.drag, Some(Position { x: 768, y: 768 }));
    let read = read_gesture(true, origin, &frame[..1]);
    assert_eq!(read.drag, Some(Position { x: 256, y: 256 }));
    let read = read_gesture(false, origin, &[motion(1.0, 1.0), release(1.0, 1.0)]);
    assert!(!read.held && read.released);
    assert_eq!(read.drag, None);
}

#[test]
fn results_belong_to_the_query() {
    let mut app = launcher(&["alpha", "beta", "gamma"]);
    let matching = |app: &App| {
        let mut titles: Vec<String> = app.results.iter().map(|r| r.title.clone()).collect();
        titles.sort();
        titles
    };
    for (text, expected) in [("a", vec!["alpha", "beta", "gamma"]), ("m", vec!["gamma"])] {
        app.handle_key(&typed(text));
        app.configure();
        app.handle_key(&key(KEY_DOWN));
        app.pointer_frame(&[press(0.0, 0.0), motion(9.0, 9.0)]);
        app.toggle_cursor();
        assert_eq!(matching(&app), expected);
    }
    match app.handle_key(&key(KEY_RETURN)) {
        Effect::Launch(Action::Launch { program, .. }) => assert_eq!(program, "gamma"),
        _ => panic!("nothing launched"),
    }
}
