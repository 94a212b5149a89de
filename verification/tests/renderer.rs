use hks_shell::renderer::icons::IconSource;
use hks_shell::renderer::surface::{
    choose_alpha_mode, choose_format, AlphaMode, FrameStatus, SurfaceFormat,
};
use hks_shell::renderer::{IconGlyph, RenderStep, Renderer, Rgba, TextArea, TextLayer};

fn owned(words: &[&str]) -> Vec<String> {
    words.iter().map(|word| word.to_string()).collect()
}

fn white(alpha: u8) -> Rgba {
    Rgba { red: 255, green: 255, blue: 255, alpha }
}

/// A renderer whose rows have these icons.
fn with_icons(renderer: &mut Renderer, icons: &[Option<&str>]) {
    let names: Vec<String> = (0..icons.len()).map(|i| i.to_string()).collect();
    let blank: Vec<String> = names.iter().map(|_| String::new()).collect();
    let icons: Vec<Option<String>> = icons.iter().map(|icon| icon.map(str::to_string)).collect();
    renderer.set_results(&names, &blank, &icons);
}

/// Answers each question for an icon: drawing `n` is the `n`th one found; "none" can't be found.
/// Gives the names that were asked for.
fn settle(renderer: &mut Renderer) -> Vec<String> {
    let mut asked = Vec::new();
    while let Some(name) = renderer.next_icon() {
        if name.starts_with("none") {
            renderer.supply_icon(None);
        } else {
            renderer.supply_icon(Some(IconSource::Svg(renderer.icon_sources().len())));
        }
        asked.push(name);
    }
    asked
}

fn glyph(id: u16, top: u128) -> IconGlyph {
    IconGlyph { id, left_halves: 49, top, size: 24 }
}

#[test]
fn a_new_renderer_is_empty() {
    let renderer = Renderer::new(400, 200);
    assert_eq!((renderer.width, renderer.height), (480, 240));
    assert_eq!((renderer.layout_width, renderer.layout_height), (400, 200));
    assert_eq!(renderer.text, "");
    assert_eq!(renderer.text_color, Rgba { red: 55, green: 55, blue: 65, alpha: 255 });
    assert_eq!((renderer.titles.as_str(), renderer.subtitles.as_str()), ("", ""));
    assert_eq!((renderer.row_count, renderer.sel_top, renderer.sel_height), (0, 0, 0));
    assert!(!renderer.caret_on);
    assert!(renderer.icon_glyphs.is_empty());
    assert_eq!(renderer.icon_sources().len(), 0);
}

#[test]
fn results_become_lines() {
    let mut renderer = Renderer::new(400, 200);
    renderer.set_results(&owned(&["One", "Two"]), &owned(&["first", ""]), &[None, None]);
    assert_eq!(renderer.titles, "One\nTwo");
    assert_eq!(renderer.subtitles, "first\n");
    assert_eq!(renderer.row_count, 2);
    renderer.set_results(&[], &[], &[]);
    assert_eq!(renderer.titles, "");
    assert_eq!(renderer.row_count, 0);
}

#[test]
fn the_placeholder_is_dimmer() {
    let mut renderer = Renderer::new(400, 200);
    renderer.set_text("Search", true);
    assert_eq!(renderer.text, "Search");
    assert_eq!(renderer.text_color, white(180));
    renderer.set_text("fire", false);
    assert_eq!(renderer.text, "fire");
    assert_eq!(renderer.text_color, white(255));
}

#[test]
fn resizing_needs_an_area() {
    let mut renderer = Renderer::new(400, 200);
    assert!(!renderer.resize(0, 100));
    assert!(!renderer.resize(100, 0));
    assert_eq!((renderer.width, renderer.height), (480, 240));
    assert!(renderer.resize(400, 546));
    assert_eq!((renderer.width, renderer.height), (480, 655));
    assert_eq!((renderer.layout_width, renderer.layout_height), (400, 546));
}

#[test]
fn one_row_is_highlighted_or_none() {
    let mut renderer = Renderer::new(400, 200);
    renderer.set_selection(Some(2));
    assert_eq!((renderer.sel_top, renderer.sel_height), (154, 48));
    renderer.set_selection(None);
    assert_eq!((renderer.sel_top, renderer.sel_height), (154, 0));
    renderer.set_selection(Some(0));
    assert_eq!((renderer.sel_top, renderer.sel_height), (58, 48));
}

#[test]
fn the_caret_is_shown_or_hidden() {
    let mut renderer = Renderer::new(400, 200);
    renderer.set_caret(true);
    assert!(renderer.caret_on);
    renderer.set_caret(false);
    assert!(!renderer.caret_on);
}

#[test]
fn icons_are_asked_for_once_and_placed_on_their_rows() {
    let mut renderer = Renderer::new(400, 200);
    with_icons(&mut renderer, &[Some("a"), None, Some("b"), Some("a")]);
    assert_eq!(settle(&mut renderer), owned(&["a", "b"]));
    assert_eq!(renderer.icon_glyphs, [glyph(0, 70), glyph(1, 166), glyph(0, 214)]);
    assert_eq!(renderer.icon_id("a"), Some(0));
    assert_eq!(renderer.icon_id("b"), Some(1));
    assert_eq!(renderer.icon_id("c"), None);
    assert_eq!(renderer.icon_sources().len(), 2);
    assert!(matches!(renderer.icon_sources()[1], IconSource::Svg(1)));
}

#[test]
fn known_icons_are_placed_without_questions() {
    let mut renderer = Renderer::new(400, 200);
    with_icons(&mut renderer, &[Some("a"), Some("b")]);
    settle(&mut renderer);
    with_icons(&mut renderer, &[Some("b"), None, Some("a"), Some("b")]);
    assert!(renderer.icon_glyphs.is_empty());
    assert_eq!(settle(&mut renderer), owned(&[]));
    assert_eq!(renderer.icon_glyphs, [glyph(1, 70), glyph(0, 166), glyph(1, 214)]);
}

#[test]
fn icon_ids_stay_the_same() {
    let mut renderer = Renderer::new(400, 200);
    with_icons(&mut renderer, &[Some("a")]);
    settle(&mut renderer);
    with_icons(&mut renderer, &[Some("c"), Some("a"), Some("b")]);
    assert_eq!(settle(&mut renderer), owned(&["c", "b"]));
    assert_eq!(renderer.icon_id("a"), Some(0));
    assert_eq!(renderer.icon_glyphs, [glyph(1, 70), glyph(0, 118), glyph(2, 166)]);
}

#[test]
fn an_icon_that_cannot_be_resolved_leaves_its_row_bare() {
    let mut renderer = Renderer::new(400, 200);
    with_icons(&mut renderer, &[Some("none"), Some("a"), Some("none")]);
    assert_eq!(settle(&mut renderer), owned(&["none", "a", "none"]));
    assert_eq!(renderer.icon_glyphs, [glyph(0, 118)]);
    assert_eq!(renderer.icon_id("none"), None);
    with_icons(&mut renderer, &[Some("none")]);
    assert_eq!(settle(&mut renderer), owned(&["none"]));
}

#[test]
fn icon_ids_wrap_around() {
    let mut renderer = Renderer::new(400, 200);
    let names: Vec<String> = (0..65_538).map(|i| i.to_string()).collect();
    let icons: Vec<Option<&str>> = names.iter().map(|name| Some(name.as_str())).collect();
    with_icons(&mut renderer, &icons);
    assert_eq!(settle(&mut renderer).len(), 65_538);
    assert_eq!(renderer.icon_id("65535"), Some(65_535));
    assert_eq!(renderer.icon_id("65536"), Some(0));
    assert_eq!(renderer.icon_id("65537"), Some(1));
    assert_eq!(renderer.icon_sources().len(), 65_538);
}

#[test]
fn a_frame_is_drawn_back_to_front() {
    let mut renderer = Renderer::new(400, 200);
    renderer.set_text("Search", true);
    let area = |layer, left_halves, top_halves, color| TextArea {
        layer,
        left_halves,
        top_halves,
        scale_tenths: 12,
        right: 480,
        bottom: 240,
        color,
    };
    let shadow = Rgba { red: 0, green: 0, blue: 0, alpha: 90 };
    let expected = [
        area(TextLayer::Query, 136, 27, shadow),
        area(TextLayer::Query, 136, 24, white(180)),
        area(TextLayer::Titles, 136, 122, white(235)),
        area(TextLayer::Icons, 0, 0, white(255)),
    ];
    for status in [FrameStatus::Success, FrameStatus::Suboptimal] {
        match renderer.render(status) {
            RenderStep::Draw(areas) => assert_eq!(areas, expected),
            _ => panic!("not drawn"),
        }
    }
}

#[test]
fn a_lost_surface_is_configured_anew() {
    let renderer = Renderer::new(400, 200);
    for status in [FrameStatus::Outdated, FrameStatus::Lost] {
        let step = renderer.render(status);
        assert!(matches!(step, RenderStep::Configure { width: 480, height: 240 }));
    }
    assert!(matches!(renderer.render(FrameStatus::Other), RenderStep::Skip));
}

#[test]
fn plain_formats_are_preferred() {
    let (bgra, rgba, other) =
        (SurfaceFormat::Bgra8Unorm, SurfaceFormat::Rgba8Unorm, SurfaceFormat::Other);
    assert_eq!(choose_format(&[other, rgba, bgra]), 1);
    assert_eq!(choose_format(&[bgra, rgba]), 0);
    assert_eq!(choose_format(&[other, other]), 0);
}

#[test]
fn premultiplied_alpha_is_preferred() {
    let (premultiplied, other) = (AlphaMode::PreMultiplied, AlphaMode::Other);
    assert_eq!(choose_alpha_mode(&[other, other, premultiplied]), 2);
    assert_eq!(choose_alpha_mode(&[other, other]), 0);
}

#[test]
fn a_row_stays_as_it_was_settled() {
    let mut renderer = Renderer::new(400, 200);
    with_icons(&mut renderer, &[Some("late"), Some("a"), Some("late"), Some("late")]);
    assert_eq!(renderer.next_icon(), Some("late".to_string()));
    renderer.supply_icon(None);
    assert_eq!(renderer.next_icon(), Some("a".to_string()));
    renderer.supply_icon(Some(IconSource::Svg(0)));
    assert_eq!(renderer.next_icon(), Some("late".to_string()));
    renderer.supply_icon(Some(IconSource::Svg(1)));
    assert_eq!(renderer.next_icon(), None);
    assert_eq!(renderer.icon_glyphs, [glyph(0, 118), glyph(1, 166), glyph(1, 214)]);
}
