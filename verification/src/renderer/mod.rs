//! What the glass surface shows, ready for a GPU to draw.
//!
//! The client draws only the surface silhouette mask (shape + tint + rim) as
//! premultiplied alpha; the actual blur/refraction is applied by the niri-glass
//! compositor via the layer-rule. This module holds what every frame is drawn
//! from: texts, colours, positions and icons.
pub mod icons;
pub mod laws;
pub mod layout;
pub mod raster;
pub mod surface;

use self::icons::IconSource;
use self::layout::{
    icon_top, icon_top_px, physical, physical_px, row_top, row_top_px, ICON_INNER, ICON_LEFT_HALVES,
    NAME_DY, RENDER_SCALE_TENTHS, RESULTS_TOP, RESULT_LEFT, ROW_H, SHADOW_DROP_HALVES, TEXT_LEFT,
    TEXT_TOP,
};
use self::surface::{FrameStatus, FrameStep};
use crate::single::{nearest_single, round_to_single};
use crate::text::{copy_option, join_lines, lines, list_view, option_view};
use vstd::hash_map::StringHashMap;
use vstd::prelude::*;

verus! {

/// A color with straight alpha.
#[derive(Clone, Copy, PartialEq, Eq, Structural, Debug)]
pub struct Rgba {
    pub red: u8,
    pub green: u8,
    pub blue: u8,
    pub alpha: u8,
}

/// Where an icon is drawn: its id, its left edge in half pixels, its top edge and its size.
#[derive(Clone, Copy, PartialEq, Eq, Structural, Debug)]
pub struct IconGlyph {
    pub id: u16,
    pub left_halves: u32,
    pub top: u128,
    pub size: u32,
}

/// Which text a text area shows.
#[derive(Clone, Copy, PartialEq, Eq, Structural, Debug)]
pub enum TextLayer {
    /// The query, or the placeholder that stands in for it.
    Query,
    /// The names of the results, one per row.
    Titles,
    /// No text; it carries the icons, whose positions are absolute.
    Icons,
}

/// A text as it is laid over the glass: where it starts, in half pixels, the scale at which it is
/// drawn, in tenths, where it is cut off, in buffer pixels, and its color.
#[derive(Clone, Copy, PartialEq, Eq, Structural, Debug)]
pub struct TextArea {
    pub layer: TextLayer,
    pub left_halves: u32,
    pub top_halves: u32,
    pub scale_tenths: u32,
    pub right: i32,
    pub bottom: i32,
    pub color: Rgba,
}

/// What to do about a frame, with all it takes to draw it.
pub enum RenderStep {
    /// Draw the glass and, over it, these texts in this order.
    Draw(Vec<TextArea>),
    /// Configure the surface anew, for a buffer of this size.
    Configure { width: u32, height: u32 },
    /// Let the frame pass.
    Skip,
}

/// White, with this alpha.
pub open spec fn white(alpha: u8) -> Rgba {
    Rgba { red: 255, green: 255, blue: 255, alpha }
}

/// Alpha of the query, of the placeholder, of the result names and of the drop shadow.
pub const QUERY_ALPHA: u8 = 255;

pub const PLACEHOLDER_ALPHA: u8 = 180;

pub const TITLE_ALPHA: u8 = 235;

pub const SHADOW_ALPHA: u8 = 90;

/// The number of distinct icon ids.
pub const ICON_IDS: usize = 0x1_0000;

/// What a renderer holds.
pub struct RendererView {
    /// The size of the buffer, in physical pixels.
    pub width: u32,
    pub height: u32,
    /// The size that texts are laid out in, in logical pixels.
    pub layout_width: u32,
    pub layout_height: u32,
    pub text: Seq<char>,
    pub text_color: Rgba,
    pub titles: Seq<char>,
    pub subtitles: Seq<char>,
    pub row_count: nat,
    /// The highlighted band; no row is highlighted where its height is zero.
    pub sel_top: nat,
    pub sel_height: u32,
    pub caret_on: bool,
    /// The ids of the icons known so far, by name.
    pub icon_ids: Map<Seq<char>, u16>,
    /// Their names, in the order in which they became known.
    pub icon_names: Seq<Seq<char>>,
    /// Their sources, in the same order.
    pub icon_sources: Seq<IconSource>,
    pub icon_glyphs: Seq<IconGlyph>,
    /// The icon name of each result row, and the first row whose icon is not settled.
    pub row_icons: Seq<Option<Seq<char>>>,
    pub next_row: nat,
}

impl RendererView {
    /// The icon table is consistent, every glyph refers to a registered icon, and the first
    /// unsettled row is a row or the end.
    pub open spec fn wf(self) -> bool {
        &&& icon_table_wf(self.icon_ids, self.icon_names, self.icon_sources)
        &&& glyphs_within(self.icon_glyphs, self.icon_sources.len())
        &&& self.next_row <= self.row_icons.len()
    }

    /// Whether the icon of row `row` has yet to be resolved.
    pub open spec fn wants(self, row: int) -> bool {
        self.row_icons[row] is Some && !self.icon_ids.contains_key(self.row_icons[row]->0)
    }

    /// The first row from `row` on whose icon has yet to be resolved, or the number of rows.
    pub open spec fn first_wanted(self, row: nat) -> nat
        decreases self.row_icons.len() - row,
    {
        if row >= self.row_icons.len() {
            self.row_icons.len()
        } else if self.wants(row as int) {
            row
        } else {
            self.first_wanted(row + 1)
        }
    }

    /// The glyphs of the known icons on the rows from `from` up to `to`.
    pub open spec fn known_glyphs(self, from: nat, to: nat) -> Seq<IconGlyph>
        decreases to,
    {
        if to <= from {
            Seq::empty()
        } else {
            let before = self.known_glyphs(from, (to - 1) as nat);
            match self.row_icons[to - 1] {
                Some(name) => if self.icon_ids.contains_key(name) {
                    before.push(glyph_on_row(self.icon_ids[name], (to - 1) as nat))
                } else {
                    before
                },
                None => before,
            }
        }
    }

    /// After placing the icons that are known, up to the first row that wants one.
    pub open spec fn with_known_icons(self) -> RendererView {
        let stop = self.first_wanted(self.next_row);
        RendererView {
            icon_glyphs: self.icon_glyphs + self.known_glyphs(self.next_row, stop),
            next_row: stop,
            ..self
        }
    }

    /// After settling the icon of the next row: with a source it is registered and placed, without
    /// one the row stays bare.
    pub open spec fn with_icon(self, source: Option<IconSource>) -> RendererView {
        match source {
            Some(source) => {
                let id = icon_id_at(self.icon_sources.len());
                let name = self.row_icons[self.next_row as int]->0;
                RendererView {
                    icon_ids: self.icon_ids.insert(name, id),
                    icon_names: self.icon_names.push(name),
                    icon_sources: self.icon_sources.push(source),
                    icon_glyphs: self.icon_glyphs.push(glyph_on_row(id, self.next_row)),
                    next_row: self.next_row + 1,
                    ..self
                }
            },
            None => RendererView { next_row: self.next_row + 1, ..self },
        }
    }

    /// After setting the search-bar text.
    pub open spec fn with_text(self, text: Seq<char>, placeholder: bool) -> RendererView {
        RendererView {
            text,
            text_color: white(
                if placeholder {
                    PLACEHOLDER_ALPHA
                } else {
                    QUERY_ALPHA
                },
            ),
            ..self
        }
    }

    /// After setting the result rows.
    pub open spec fn with_results(
        self,
        titles: Seq<Seq<char>>,
        subtitles: Seq<Seq<char>>,
        icons: Seq<Option<Seq<char>>>,
    ) -> RendererView {
        RendererView {
            titles: lines(titles),
            subtitles: lines(subtitles),
            row_count: nearest_single(titles.len()),
            icon_glyphs: Seq::empty(),
            row_icons: icons,
            next_row: 0,
            ..self
        }
    }

    /// After highlighting a row, or none.
    pub open spec fn with_selection(self, selected: Option<usize>) -> RendererView {
        match selected {
            Some(row) => RendererView {
                sel_top: row_top_px(row as nat),
                sel_height: ROW_H,
                ..self
            },
            None => RendererView { sel_height: 0, ..self },
        }
    }

    /// After showing or hiding the caret.
    pub open spec fn with_caret(self, on: bool) -> RendererView {
        RendererView { caret_on: on, ..self }
    }

    /// After a change of the panel's size; a size without area changes nothing.
    pub open spec fn with_size(self, width: u32, height: u32) -> RendererView {
        if width == 0 || height == 0 {
            self
        } else {
            RendererView {
                width: physical_px(width as nat) as u32,
                height: physical_px(height as nat) as u32,
                layout_width: width,
                layout_height: height,
                ..self
            }
        }
    }

    /// One text over the whole buffer.
    pub open spec fn area(
        self,
        layer: TextLayer,
        left_halves: u32,
        top_halves: u32,
        color: Rgba,
    ) -> TextArea {
        TextArea {
            layer,
            left_halves,
            top_halves,
            scale_tenths: RENDER_SCALE_TENTHS,
            right: self.width as i32,
            bottom: self.height as i32,
            color,
        }
    }

    /// The texts of a frame, back to front: the query's soft drop shadow, the query, the result
    /// names and the icons.
    pub open spec fn text_areas(self) -> Seq<TextArea> {
        seq![
            self.area(
                TextLayer::Query,
                (2 * TEXT_LEFT) as u32,
                (2 * TEXT_TOP + SHADOW_DROP_HALVES) as u32,
                Rgba { red: 0, green: 0, blue: 0, alpha: SHADOW_ALPHA },
            ),
            self.area(
                TextLayer::Query,
                (2 * TEXT_LEFT) as u32,
                (2 * TEXT_TOP) as u32,
                self.text_color,
            ),
            self.area(
                TextLayer::Titles,
                (2 * RESULT_LEFT) as u32,
                (2 * (RESULTS_TOP + NAME_DY)) as u32,
                white(TITLE_ALPHA),
            ),
            self.area(TextLayer::Icons, 0, 0, white(255)),
        ]
    }
}

/// Icons are registered once each, under the id that is their place in the list (modulo the number
/// of ids).
pub open spec fn icon_table_wf(
    ids: Map<Seq<char>, u16>,
    names: Seq<Seq<char>>,
    sources: Seq<IconSource>,
) -> bool {
    &&& names.len() == sources.len()
    &&& names.no_duplicates()
    &&& forall|name: Seq<char>| ids.contains_key(name) <==> #[trigger] names.contains(name)
    &&& forall|i: int| 0 <= i < names.len() ==> ids[#[trigger] names[i]] == icon_id_at(i as nat)
    &&& forall|i: int| 0 <= i < sources.len() ==> (#[trigger] sources[i]).wf()
}

/// Every glyph's id is the index of one of `count` icons.
pub open spec fn glyphs_within(glyphs: Seq<IconGlyph>, count: nat) -> bool {
    forall|i: int| 0 <= i < glyphs.len() ==> (#[trigger] glyphs[i]).id < count
}

/// The id of the icon that is registered after `count` others.
pub open spec fn icon_id_at(count: nat) -> u16 {
    (count % ICON_IDS as nat) as u16
}

/// The glyph of an icon on result row `row`.
pub open spec fn glyph_on_row(id: u16, row: nat) -> IconGlyph {
    IconGlyph {
        id,
        left_halves: ICON_LEFT_HALVES,
        top: icon_top_px(row) as u128,
        size: ICON_INNER,
    }
}

/// A known icon's id is the index of a source.
proof fn lemma_known_icon(view: RendererView, name: Seq<char>)
    requires
        view.wf(),
        view.icon_ids.contains_key(name),
    ensures
        view.icon_ids[name] < view.icon_sources.len(),
{
    assert(view.icon_names.contains(name));
    let at = view.icon_names.index_of(name);
    assert(view.icon_ids[view.icon_names[at]] == icon_id_at(at as nat));
}

/// Registering a new icon keeps the table consistent.
proof fn lemma_register(view: RendererView, name: Seq<char>, source: IconSource)
    requires
        view.wf(),
        !view.icon_ids.contains_key(name),
        source.wf(),
    ensures
        icon_table_wf(
            view.icon_ids.insert(name, icon_id_at(view.icon_sources.len())),
            view.icon_names.push(name),
            view.icon_sources.push(source),
        ),
{
    let ids = view.icon_ids.insert(name, icon_id_at(view.icon_sources.len()));
    let names = view.icon_names.push(name);
    assert(!view.icon_names.contains(name));
    assert forall|other: Seq<char>| ids.contains_key(other) <==> #[trigger] names.contains(
        other,
    ) by {
        if view.icon_names.contains(other) {
            let at = view.icon_names.index_of(other);
            assert(names[at] == other);
        }
        if other == name {
            assert(names[view.icon_names.len() as int] == name);
        }
        if names.contains(other) && other != name {
            let at = names.index_of(other);
            assert(view.icon_names[at] == other);
        }
    }
    assert forall|i: int| 0 <= i < names.len() implies ids[#[trigger] names[i]] == icon_id_at(
        i as nat,
    ) by {
        if i < view.icon_names.len() {
            assert(names[i] == view.icon_names[i]);
            assert(view.icon_names.contains(view.icon_names[i]));
        }
    }
}

/// What a list of icon names holds.
pub open spec fn icons_view(icons: Seq<Option<String>>) -> Seq<Option<Seq<char>>> {
    icons.map_values(|icon: Option<String>| option_view(icon))
}

/// A renderer for a panel of this size that has not been told what to show.
pub open spec fn new_renderer(width: u32, height: u32) -> RendererView {
    RendererView {
        width: physical_px(width as nat) as u32,
        height: physical_px(height as nat) as u32,
        layout_width: width,
        layout_height: height,
        text: Seq::empty(),
        text_color: Rgba { red: 55, green: 55, blue: 65, alpha: 255 },
        titles: Seq::empty(),
        subtitles: Seq::empty(),
        row_count: 0,
        sel_top: 0,
        sel_height: 0,
        caret_on: false,
        icon_ids: Map::empty(),
        icon_names: Seq::empty(),
        icon_sources: Seq::empty(),
        icon_glyphs: Seq::empty(),
        row_icons: Seq::empty(),
        next_row: 0,
    }
}

/// The icons known so far, and how far they are settled on the result rows.
pub struct IconTable {
    ids: StringHashMap<u16>,
    names: Ghost<Seq<Seq<char>>>,
    sources: Vec<IconSource>,
    row_icons: Vec<Option<String>>,
    next_row: usize,
}

impl IconTable {
    /// The ids of the known icons, by name.
    pub closed spec fn known_ids(&self) -> Map<Seq<char>, u16> {
        self.ids@
    }

    /// The names of the known icons.
    pub closed spec fn known_names(&self) -> Seq<Seq<char>> {
        self.names@
    }

    /// The sources of the known icons.
    pub closed spec fn known_sources(&self) -> Seq<IconSource> {
        self.sources@
    }

    /// The icon name of each result row.
    pub closed spec fn wanted_icons(&self) -> Seq<Option<Seq<char>>> {
        icons_view(self.row_icons@)
    }

    /// The first row whose icon is not settled.
    pub closed spec fn unsettled_row(&self) -> nat {
        self.next_row as nat
    }
}

/// What the frames of one surface are drawn from.
pub struct Renderer {
    pub width: u32,
    pub height: u32,
    pub layout_width: u32,
    pub layout_height: u32,
    pub text: String,
    pub text_color: Rgba,
    pub titles: String,
    pub subtitles: String,
    pub row_count: u128,
    pub sel_top: u128,
    pub sel_height: u32,
    pub caret_on: bool,
    pub icon_glyphs: Vec<IconGlyph>,
    pub icons: IconTable,
}

impl View for Renderer {
    type V = RendererView;

    open spec fn view(&self) -> RendererView {
        RendererView {
            width: self.width,
            height: self.height,
            layout_width: self.layout_width,
            layout_height: self.layout_height,
            text: self.text@,
            text_color: self.text_color,
            titles: self.titles@,
            subtitles: self.subtitles@,
            row_count: self.row_count as nat,
            sel_top: self.sel_top as nat,
            sel_height: self.sel_height,
            caret_on: self.caret_on,
            icon_ids: self.icons.known_ids(),
            icon_names: self.icons.known_names(),
            icon_sources: self.icons.known_sources(),
            icon_glyphs: self.icon_glyphs@,
            row_icons: self.icons.wanted_icons(),
            next_row: self.icons.unsettled_row(),
        }
    }
}

impl Renderer {
    /// The icon table is consistent.
    pub open spec fn wf(&self) -> bool {
        self@.wf()
    }

    /// A renderer for a panel of this size, in logical pixels.
    pub fn new(width: u32, height: u32) -> (renderer: Self)
        ensures
            renderer.wf(),
            renderer@ == new_renderer(width, height),
    {
        let renderer = Renderer {
            width: physical(width),
            height: physical(height),
            layout_width: width,
            layout_height: height,
            text: String::new(),
            text_color: Rgba { red: 55, green: 55, blue: 65, alpha: 255 },
            titles: String::new(),
            subtitles: String::new(),
            row_count: 0,
            sel_top: 0,
            sel_height: 0,
            caret_on: false,
            icon_glyphs: Vec::new(),
            icons: IconTable {
                ids: StringHashMap::new(),
                names: Ghost(Seq::empty()),
                sources: Vec::new(),
                row_icons: Vec::new(),
                next_row: 0,
            },
        };
        assert(renderer@.row_icons =~= Seq::empty());
        renderer
    }

    /// Set the result rows: title, (possibly empty) subtitle, and optional icon
    /// name per row. The icons are placed by `next_icon` and `supply_icon`.
    pub fn set_results(
        &mut self,
        titles: &[String],
        subtitles: &[String],
        icons: &[Option<String>],
    )
        requires
            old(self).wf(),
        ensures
            final(self).wf(),
            final(self)@ == old(self)@.with_results(
                list_view(titles@),
                list_view(subtitles@),
                icons_view(icons@),
            ),
    {
        let mut row_icons: Vec<Option<String>> = Vec::new();
        let mut i: usize = 0;
        while i < icons.len()
            invariant
                i <= icons.len(),
                icons_view(row_icons@) == icons_view(icons@).take(i as int),
            decreases icons.len() - i,
        {
            let ghost copied = row_icons@;
            row_icons.push(copy_option(&icons[i]));
            proof {
                assert(icons_view(row_icons@) =~= icons_view(copied).push(
                    option_view(icons@[i as int]),
                ));
                assert(icons_view(icons@).take(i + 1) =~= icons_view(icons@).take(i as int).push(
                    option_view(icons@[i as int]),
                ));
            }
            i = i + 1;
        }
        assert(icons_view(icons@).take(icons.len() as int) =~= icons_view(icons@));
        self.titles = join_lines(titles);
        self.subtitles = join_lines(subtitles);
        self.row_count = round_to_single(titles.len() as u128);
        self.icon_glyphs = Vec::new();
        self.icons.row_icons = row_icons;
        self.icons.next_row = 0;
    }

    /// The stable custom-glyph id of an icon name; `None` while it is not known.
    pub fn icon_id(&self, name: &str) -> (id: Option<u16>)
        ensures
            id == if self@.icon_ids.contains_key(name@) {
                Some(self@.icon_ids[name@])
            } else {
                None
            },
    {
        match self.icons.ids.get(name) {
            Some(id) => Some(*id),
            None => None,
        }
    }

    /// Places the icons that are known, row by row, and stops at the first row whose icon has yet
    /// to be resolved: gives its name, for `supply_icon` to answer. `None` when all is placed.
    pub fn next_icon(&mut self) -> (wanted: Option<String>)
        requires
            old(self).wf(),
        ensures
            final(self).wf(),
            final(self)@ == old(self)@.with_known_icons(),
            option_view(wanted) == if final(self)@.next_row < final(self)@.row_icons.len() {
                final(self)@.row_icons[final(self)@.next_row as int]
            } else {
                None
            },
    {
        let ghost start = self@;
        while self.icons.next_row < self.icons.row_icons.len()
            invariant
                start == old(self)@,
                start.wf(),
                self@.wf(),
                start.next_row <= self.icons.next_row <= self.icons.row_icons@.len(),
                self@ == (RendererView {
                    icon_glyphs: start.icon_glyphs + start.known_glyphs(
                        start.next_row,
                        self.icons.next_row as nat,
                    ),
                    next_row: self.icons.next_row as nat,
                    ..start
                }),
                start.first_wanted(start.next_row) == start.first_wanted(self.icons.next_row as nat),
            decreases self.icons.row_icons.len() - self.icons.next_row,
        {
            let row: usize = self.icons.next_row;
            assert(start.row_icons[row as int] == option_view(self.icons.row_icons@[row as int]));
            match &self.icons.row_icons[row] {
                None => {},
                Some(name) => match self.icon_id(name.as_str()) {
                    Some(id) => {
                        let glyph = IconGlyph {
                            id,
                            left_halves: ICON_LEFT_HALVES,
                            top: icon_top(row),
                            size: ICON_INNER,
                        };
                        proof {
                            lemma_known_icon(start, name@);
                        }
                        self.icon_glyphs.push(glyph);
                    },
                    None => {
                        assert(start.wants(row as int));
                        assert(start.first_wanted(row as nat) == row);
                        return Some(name.clone());
                    },
                },
            }
            self.icons.next_row = row + 1;
            assert(self@.icon_glyphs =~= start.icon_glyphs + start.known_glyphs(
                start.next_row,
                self.icons.next_row as nat,
            ));
        }
        None
    }

    /// Settles the icon that `next_icon` asked for, with its source or, where it can't be
    /// resolved, without one.
    pub fn supply_icon(&mut self, source: Option<IconSource>)
        requires
            old(self).wf(),
            old(self)@.next_row < old(self)@.row_icons.len(),
            old(self)@.wants(old(self)@.next_row as int),
            source matches Some(source) ==> source.wf(),
        ensures
            final(self).wf(),
            final(self)@ == old(self)@.with_icon(source),
    {
        let row: usize = self.icons.next_row;
        let ghost start = self@;
        assert(row < self.icons.row_icons.len());
        assert(start.row_icons[row as int] == option_view(self.icons.row_icons@[row as int]));
        match source {
            Some(source) => {
                let name: String = match &self.icons.row_icons[row] {
                    Some(name) => name.clone(),
                    None => String::new(),
                };
                let count: usize = self.icons.sources.len();
                let id: u16 = count as u16;
                proof {
                    assert(id == count % 0x1_0000) by (bit_vector)
                        requires
                            id == count as u16,
                    ;
                    assert(!start.icon_names.contains(name@));
                }
                let glyph = IconGlyph {
                    id,
                    left_halves: ICON_LEFT_HALVES,
                    top: icon_top(row),
                    size: ICON_INNER,
                };
                self.icon_glyphs.push(glyph);
                self.icons.sources.push(source);
                proof {
                    self.icons.names@ = self.icons.names@.push(name@);
                }
                let ghost key = name@;
                self.icons.ids.insert(name, id);
                proof {
                    lemma_register(start, key, source);
                    assert(self.icons.sources@ == start.icon_sources.push(source));
                }
            },
            None => {},
        }
        self.icons.next_row = row + 1;
    }

    /// The sources of the known icons; a glyph's id is an index into them.
    pub fn icon_sources(&self) -> (sources: &[IconSource])
        requires
            self.wf(),
        ensures
            sources@ == self@.icon_sources,
            forall|i: int| 0 <= i < sources@.len() ==> (#[trigger] sources@[i]).wf(),
    {
        self.icons.sources.as_slice()
    }

    /// Set the search-bar text (the query, or a dimmer placeholder when empty).
    pub fn set_text(&mut self, text: &str, placeholder: bool)
        requires
            old(self).wf(),
        ensures
            final(self).wf(),
            final(self)@ == old(self)@.with_text(text@, placeholder),
    {
        // White content over the darkened backdrop.
        let alpha: u8 = if placeholder {
            PLACEHOLDER_ALPHA
        } else {
            QUERY_ALPHA
        };
        self.text_color = Rgba { red: 255, green: 255, blue: 255, alpha };
        self.text = text.to_owned();
    }

    /// Fits the buffer and the texts to a panel of this size. Returns whether the surface is to be
    /// configured anew: a size without area is ignored.
    pub fn resize(&mut self, width: u32, height: u32) -> (changed: bool)
        requires
            old(self).wf(),
        ensures
            final(self).wf(),
            final(self)@ == old(self)@.with_size(width, height),
            changed == (width != 0 && height != 0),
    {
        if width == 0 || height == 0 {
            return false;
        }
        self.width = physical(width);
        self.height = physical(height);
        self.layout_width = width;
        self.layout_height = height;
        true
    }

    /// Set the highlighted result row (row 0 is the first row under the bar),
    /// or clear the highlight with `None`.
    pub fn set_selection(&mut self, selected: Option<usize>)
        requires
            old(self).wf(),
        ensures
            final(self).wf(),
            final(self)@ == old(self)@.with_selection(selected),
    {
        match selected {
            Some(row) => {
                self.sel_top = row_top(row);
                self.sel_height = ROW_H;
            },
            None => {
                self.sel_height = 0;
            },
        }
    }

    /// Show or hide the caret.
    pub fn set_caret(&mut self, on: bool)
        requires
            old(self).wf(),
        ensures
            final(self).wf(),
            final(self)@ == old(self)@.with_caret(on),
    {
        self.caret_on = on;
    }

    /// One text over the whole buffer.
    fn text_area(
        &self,
        layer: TextLayer,
        left_halves: u32,
        top_halves: u32,
        color: Rgba,
    ) -> (area: TextArea)
        ensures
            area == self@.area(layer, left_halves, top_halves, color),
    {
        TextArea {
            layer,
            left_halves,
            top_halves,
            scale_tenths: RENDER_SCALE_TENTHS,
            right: self.width as i32,
            bottom: self.height as i32,
            color,
        }
    }

    /// What to do about a frame, given what came of asking the surface for it.
    pub fn render(&self, status: FrameStatus) -> (step: RenderStep)
        ensures
            match (status.calls_for(), step) {
                (FrameStep::Draw, RenderStep::Draw(areas)) => areas@ == self@.text_areas(),
                (FrameStep::Configure, RenderStep::Configure { width, height }) => width
                    == self@.width && height == self@.height,
                (FrameStep::Skip, RenderStep::Skip) => true,
                _ => false,
            },
    {
        match status {
            FrameStatus::Success | FrameStatus::Suboptimal => {
                let shadow = Rgba { red: 0, green: 0, blue: 0, alpha: SHADOW_ALPHA };
                let names = Rgba { red: 255, green: 255, blue: 255, alpha: TITLE_ALPHA };
                let opaque = Rgba { red: 255, green: 255, blue: 255, alpha: 255 };
                let top: u32 = 2 * TEXT_TOP;
                let mut areas: Vec<TextArea> = Vec::new();
                areas.push(
                    self.text_area(
                        TextLayer::Query,
                        2 * TEXT_LEFT,
                        top + SHADOW_DROP_HALVES,
                        shadow,
                    ),
                );
                areas.push(self.text_area(TextLayer::Query, 2 * TEXT_LEFT, top, self.text_color));
                areas.push(
                    self.text_area(
                        TextLayer::Titles,
                        2 * RESULT_LEFT,
                        2 * (RESULTS_TOP + NAME_DY),
                        names,
                    ),
                );
                areas.push(self.text_area(TextLayer::Icons, 0, 0, opaque));
                assert(areas@ =~= self@.text_areas());
                RenderStep::Draw(areas)
            },
            FrameStatus::Outdated | FrameStatus::Lost => RenderStep::Configure {
                width: self.width,
                height: self.height,
            },
            FrameStatus::Other => RenderStep::Skip,
        }
    }
}

/// An icon keeps its id for good: resolving others leaves it as it is.
pub proof fn law_icon_ids_are_stable(view: RendererView, source: Option<IconSource>, name: Seq<char>)
    requires
        view.wf(),
        view.next_row < view.row_icons.len(),
        view.wants(view.next_row as int),
        view.icon_ids.contains_key(name),
    ensures
        view.with_known_icons().icon_ids[name] == view.icon_ids[name],
        view.with_icon(source).icon_ids.contains_key(name),
        view.with_icon(source).icon_ids[name] == view.icon_ids[name],
{
}

/// As long as there are ids left, a glyph's id leads to the source that was resolved for its name,
/// and no two names share an id.
pub proof fn law_icon_ids_lead_to_their_sources(view: RendererView, first: int, second: int)
    requires
        view.wf(),
        view.icon_sources.len() <= ICON_IDS,
        0 <= first < view.icon_names.len(),
        0 <= second < view.icon_names.len(),
    ensures
        view.icon_ids[view.icon_names[first]] == first,
        view.icon_ids[view.icon_names[first]] == view.icon_ids[view.icon_names[second]]
            ==> view.icon_names[first] == view.icon_names[second],
{
    assert(view.icon_ids[view.icon_names[first]] == icon_id_at(first as nat));
    assert(view.icon_ids[view.icon_names[second]] == icon_id_at(second as nat));
}

/// A pass over the rows comes to an end: settling an icon moves on by a row, and placing the known
/// ones never goes back.
pub proof fn law_icon_pass_advances(view: RendererView, source: Option<IconSource>)
    requires
        view.wf(),
    ensures
        view.next_row <= view.with_known_icons().next_row <= view.row_icons.len(),
        view.with_icon(source).next_row == view.next_row + 1,
{
    lemma_first_wanted(view, view.next_row);
}

/// The first wanted row lies at or after the row that the search starts from.
pub proof fn lemma_first_wanted(view: RendererView, row: nat)
    requires
        row <= view.row_icons.len(),
    ensures
        row <= view.first_wanted(row) <= view.row_icons.len(),
        view.first_wanted(row) < view.row_icons.len() ==> view.wants(view.first_wanted(row) as int),
        forall|i: int| row <= i < view.first_wanted(row) ==> !#[trigger] view.wants(i),
    decreases view.row_icons.len() - row,
{
    if row < view.row_icons.len() && !view.wants(row as int) {
        lemma_first_wanted(view, row + 1);
    }
}

/// When every icon of the rows is known, one pass without questions places exactly one glyph for
/// each row that names an icon, in order.
pub proof fn law_known_icons_are_all_placed(
    view: RendererView,
    titles: Seq<Seq<char>>,
    subtitles: Seq<Seq<char>>,
    icons: Seq<Option<Seq<char>>>,
)
    requires
        view.wf(),
        forall|row: int|
            0 <= row < icons.len() && #[trigger] icons[row] is Some ==> view.icon_ids.contains_key(
                icons[row]->0,
            ),
    ensures
        ({
            let shown = view.with_results(titles, subtitles, icons).with_known_icons();
            &&& shown.next_row == icons.len()
            &&& shown.icon_glyphs == view.with_results(titles, subtitles, icons).known_glyphs(
                0,
                icons.len(),
            )
            &&& shown.icon_glyphs.len() == icons.filter(
                |icon: Option<Seq<char>>| icon is Some,
            ).len()
        }),
{
    let start = view.with_results(titles, subtitles, icons);
    lemma_first_wanted(start, 0);
    let shown = start.with_known_icons();
    assert(shown.next_row == icons.len()) by {
        if shown.next_row < icons.len() {
            assert(start.wants(shown.next_row as int));
            assert(icons[shown.next_row as int] is Some);
        }
    }
    assert(shown.icon_glyphs =~= start.known_glyphs(0, icons.len()));
    lemma_glyph_count(start, icons.len());
    assert(icons.take(icons.len() as int) =~= icons);
}

/// The known glyphs up to a row are as many as the rows that name an icon.
proof fn lemma_glyph_count(view: RendererView, rows: nat)
    requires
        rows <= view.row_icons.len(),
        forall|row: int|
            0 <= row < view.row_icons.len() && #[trigger] view.row_icons[row] is Some
                ==> view.icon_ids.contains_key(view.row_icons[row]->0),
    ensures
        view.known_glyphs(0, rows).len() == view.row_icons.take(rows as int).filter(
            |icon: Option<Seq<char>>| icon is Some,
        ).len(),
    decreases rows,
{
    reveal(Seq::filter);
    if rows > 0 {
        let before = view.row_icons.take(rows - 1);
        assert(view.row_icons.take(rows as int).drop_last() =~= before);
        lemma_glyph_count(view, (rows - 1) as nat);
    } else {
        assert(view.row_icons.take(0) =~= Seq::empty());
    }
}

/// The glyphs of the rows that were settled, in order: `settled` holds for each the id of its icon,
/// or `None` where the row stays bare.
pub open spec fn glyphs_of(settled: Seq<Option<u16>>) -> Seq<IconGlyph>
    decreases settled.len(),
{
    if settled.len() == 0 {
        Seq::empty()
    } else {
        let before = glyphs_of(settled.drop_last());
        match settled.last() {
            Some(id) => before.push(glyph_on_row(id, (settled.len() - 1) as nat)),
            None => before,
        }
    }
}

impl RendererView {
    /// How the rows from `from` up to `to` are settled by the icons that are known.
    pub open spec fn known_ids(self, from: nat, to: nat) -> Seq<Option<u16>> {
        Seq::new(
            (to - from) as nat,
            |k: int|
                match self.row_icons[from + k] {
                    Some(name) => if self.icon_ids.contains_key(name) {
                        Some(self.icon_ids[name])
                    } else {
                        None
                    },
                    None => None,
                },
        )
    }

    /// Whether the glyphs are those of the rows before the next one, settled as `settled` says.
    pub open spec fn shows(self, settled: Seq<Option<u16>>) -> bool {
        settled.len() == self.next_row && self.icon_glyphs == glyphs_of(settled)
    }
}

/// Each row that was settled with an icon has one glyph, on that row, and the glyphs keep the order
/// of the rows: a new list of rows starts out so, placing known icons settles rows with these, and
/// answering for the next row settles that row with the answer. A row stays as it was settled.
pub proof fn law_icons_are_placed_in_row_order(
    view: RendererView,
    settled: Seq<Option<u16>>,
    titles: Seq<Seq<char>>,
    subtitles: Seq<Seq<char>>,
    icons: Seq<Option<Seq<char>>>,
    source: Option<IconSource>,
)
    requires
        view.wf(),
        view.shows(settled),
    ensures
        view.with_results(titles, subtitles, icons).shows(Seq::empty()),
        ({
            let placed = view.with_known_icons();
            placed.shows(settled + view.known_ids(view.next_row, placed.next_row))
        }),
        view.with_icon(source).shows(
            settled.push(
                if source is Some {
                    Some(icon_id_at(view.icon_sources.len()))
                } else {
                    None
                },
            ),
        ),
{
    lemma_first_wanted(view, view.next_row);
    lemma_glyphs_of_known(view, settled, view.with_known_icons().next_row);
    let outcome = if source is Some {
        Some(icon_id_at(view.icon_sources.len()))
    } else {
        None
    };
    assert(settled.push(outcome).drop_last() =~= settled);
}

/// Settling rows with known icons adds the known glyphs.
proof fn lemma_glyphs_of_known(view: RendererView, settled: Seq<Option<u16>>, to: nat)
    requires
        settled.len() <= to,
    ensures
        glyphs_of(settled + view.known_ids(settled.len(), to)) == glyphs_of(settled)
            + view.known_glyphs(settled.len(), to),
    decreases to,
{
    let all = settled + view.known_ids(settled.len(), to);
    if settled.len() < to {
        lemma_glyphs_of_known(view, settled, (to - 1) as nat);
        assert(all.drop_last() =~= settled + view.known_ids(settled.len(), (to - 1) as nat));
    } else {
        assert(all =~= settled);
    }
    assert(glyphs_of(all) =~= glyphs_of(settled) + view.known_glyphs(settled.len(), to));
}

/// The icon table speaks of all its entries.
proof fn law_icons_are_the_entries(table: IconTable, i: int)
    ensures
        table.known_ids() == table.ids@,
        table.known_sources() == table.sources@,
        table.wanted_icons().len() == table.row_icons@.len(),
        0 <= i < table.row_icons@.len() ==> table.wanted_icons()[i] == option_view(
            table.row_icons@[i],
        ),
        table.unsettled_row() == table.next_row,
{
}

} // verus!
