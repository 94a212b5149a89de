//! What holds of the renderer, by the numbers.
use super::icons::{extension, file_name, is_svg, last_piece, IconSource};
use super::layout::{icon_top_px, law_buffer_sizes, law_row_tops, physical_px, row_top_px};
use super::raster::{can_resize, premultiplied, RasterImage};
use super::surface::{FrameStatus, FrameStep, SurfaceFormat};
use super::{
    icons_view, lemma_first_wanted, new_renderer, IconGlyph, Renderer, RendererView, Rgba, TextArea,
    TextLayer,
};
use crate::text::{ascends, law_lowering, lines, lowered, option_view};
use vstd::prelude::*;

verus! {

/// A drawn frame holds the same four areas whatever the renderer was told, each over the whole
/// buffer and at a scale of 1.2: the query's shadow at (68, 13.5) in black, the query at (68, 12) in
/// its colour, the result names at (68, 61) in white, and the icons at the origin.
pub proof fn law_a_frame_holds_four_areas(view: RendererView)
    ensures
        ({
            let areas = view.text_areas();
            &&& areas.len() == 4
            &&& forall|i: int|
                0 <= i < 4 ==> (#[trigger] areas[i]).scale_tenths == 12 && areas[i].right
                    == view.width as i32 && areas[i].bottom == view.height as i32
            &&& areas[0].layer == TextLayer::Query && areas[0].left_halves == 136
                && areas[0].top_halves == 27 && areas[0].color == (Rgba {
                red: 0,
                green: 0,
                blue: 0,
                alpha: 90,
            })
            &&& areas[1].layer == TextLayer::Query && areas[1].left_halves == 136
                && areas[1].top_halves == 24 && areas[1].color == view.text_color
            &&& areas[2].layer == TextLayer::Titles && areas[2].left_halves == 136
                && areas[2].top_halves == 122 && areas[2].color == (Rgba {
                red: 255,
                green: 255,
                blue: 255,
                alpha: 235,
            })
            &&& areas[3].layer == TextLayer::Icons && areas[3].left_halves == 0
                && areas[3].top_halves == 0 && areas[3].color == (Rgba {
                red: 255,
                green: 255,
                blue: 255,
                alpha: 255,
            })
        }),
{
}

/// Two frames of buffers of one size differ in nothing but the colour of the query: texts, rows,
/// icons, selection and caret leave the areas where they are.
pub proof fn law_frames_differ_in_the_query_colour_alone(
    view: RendererView,
    other: RendererView,
    area: int,
)
    requires
        view.width == other.width,
        view.height == other.height,
        0 <= area < 4,
    ensures
        area != 1 ==> view.text_areas()[area] == other.text_areas()[area],
        view.text_areas()[1] == (TextArea {
            color: view.text_color,
            ..other.text_areas()[1]
        }),
{
}

/// A frame is drawn when the surface gave one, be it a suboptimal one; the surface is configured
/// anew when it was outdated or lost; in any other state the frame passes.
pub proof fn law_frame_states(status: FrameStatus)
    ensures
        status.calls_for() == FrameStep::Draw <==> status == FrameStatus::Success || status
            == FrameStatus::Suboptimal,
        status.calls_for() == FrameStep::Configure <==> status == FrameStatus::Outdated || status
            == FrameStatus::Lost,
        status.calls_for() == FrameStep::Skip <==> status == FrameStatus::Other,
{
}

/// The plain formats are the two UNORM ones.
pub proof fn law_plain_formats(format: SurfaceFormat)
    ensures
        format.is_plain() <==> format != SurfaceFormat::Other,
{
}

/// Setting the text changes the text and its colour, white with alpha 180 for a placeholder and
/// opaque white for a query, and nothing else.
pub proof fn law_setting_the_text(view: RendererView, text: Seq<char>, placeholder: bool)
    ensures
        ({
            let after = view.with_text(text, placeholder);
            &&& after.text == text
            &&& after.text_color.red == 255 && after.text_color.green == 255
                && after.text_color.blue == 255
            &&& after.text_color.alpha == if placeholder {
                180
            } else {
                255int
            }
            &&& after == (RendererView { text: after.text, text_color: after.text_color, ..view })
        }),
{
}

/// Setting the results makes a line of every title and of every subtitle, counts the titles, and
/// starts the icons over; nothing else changes.
pub proof fn law_setting_the_results(
    view: RendererView,
    titles: Seq<Seq<char>>,
    subtitles: Seq<Seq<char>>,
    icons: Seq<Option<Seq<char>>>,
)
    ensures
        ({
            let after = view.with_results(titles, subtitles, icons);
            &&& after.titles == lines(titles)
            &&& after.subtitles == lines(subtitles)
            &&& titles.len() < 0x100_0000 ==> after.row_count == titles.len()
            &&& after.row_count == crate::single::nearest_single(titles.len())
            &&& after.row_icons == icons
            &&& after.icon_glyphs.len() == 0
            &&& after.next_row == 0
            &&& after == (RendererView {
                titles: after.titles,
                subtitles: after.subtitles,
                row_count: after.row_count,
                row_icons: after.row_icons,
                icon_glyphs: after.icon_glyphs,
                next_row: after.next_row,
                ..view
            })
        }),
{
    if titles.len() < 0x100_0000 {
        crate::single::law_small_numbers_are_exact(titles.len());
    }
}

/// A highlighted row is a band 48 high whose top is 58 and 48 more for each row above; without one
/// the band has no height. Nothing else changes.
pub proof fn law_highlighting(view: RendererView, row: usize)
    ensures
        ({
            let after = view.with_selection(Some(row));
            &&& row < 349_524 ==> after.sel_top == 58 + 48 * row
            &&& after.sel_top == row_top_px(row as nat)
            &&& after.sel_height == 48
            &&& after == (RendererView {
                sel_top: after.sel_top,
                sel_height: after.sel_height,
                ..view
            })
        }),
        view.with_selection(None) == (RendererView { sel_height: 0, ..view }),
{
    law_row_tops(row as nat);
}

/// Showing or hiding the caret does just that.
pub proof fn law_setting_the_caret(view: RendererView, on: bool)
    ensures
        view.with_caret(on) == (RendererView { caret_on: on, ..view }),
{
}

/// A new size is that of the layout, and six fifths of it that of the buffer; a size without area
/// changes nothing, and nothing but the sizes ever changes.
pub proof fn law_resizing(view: RendererView, width: u32, height: u32)
    ensures
        width == 0 || height == 0 ==> view.with_size(width, height) == view,
        width > 0 && height > 0 ==> {
            let after = view.with_size(width, height);
            &&& after.layout_width == width && after.layout_height == height
            &&& width <= 800_000 ==> after.width == (12 * width + 5) / 10
            &&& height <= 800_000 ==> after.height == (12 * height + 5) / 10
            &&& after.width == physical_px(width as nat) && after.height == physical_px(
                height as nat,
            )
            &&& after == (RendererView {
                width: after.width,
                height: after.height,
                layout_width: after.layout_width,
                layout_height: after.layout_height,
                ..view
            })
        },
{
    law_buffer_sizes(width);
    law_buffer_sizes(height);
}

/// A new renderer has its size, an empty text in dark grey, and neither rows, selection, caret nor
/// icons.
pub proof fn law_a_new_renderer_is_empty(width: u32, height: u32)
    ensures
        ({
            let view = new_renderer(width, height);
            &&& view.layout_width == width && view.layout_height == height
            &&& 1 <= width <= 800_000 ==> view.width == (12 * width + 5) / 10
            &&& 1 <= height <= 800_000 ==> view.height == (12 * height + 5) / 10
            &&& view.width == physical_px(width as nat) && view.height == physical_px(height as nat)
            &&& view.text_color == (Rgba { red: 55, green: 55, blue: 65, alpha: 255 })
            &&& view.text.len() == 0 && view.titles.len() == 0 && view.subtitles.len() == 0
            &&& view.row_count == 0 && view.sel_top == 0 && view.sel_height == 0 && !view.caret_on
            &&& view.icon_ids == Map::<Seq<char>, u16>::empty()
            &&& view.icon_names.len() == 0 && view.icon_sources.len() == 0
            &&& view.icon_glyphs.len() == 0 && view.row_icons.len() == 0 && view.next_row == 0
        }),
{
    law_buffer_sizes(width);
    law_buffer_sizes(height);
}

/// Placing known icons goes on to the first row whose icon is not known, or to the end. On the way
/// it gives every row that names an icon one glyph, with the id of that icon, 24.5 from the left, at
/// the top that `law_row_tops` puts numbers to, and 24 wide; rows without an icon get none. Nothing
/// else changes.
pub proof fn law_known_icons_go_on_their_rows(view: RendererView)
    requires
        view.next_row <= view.row_icons.len(),
    ensures
        ({
            let after = view.with_known_icons();
            &&& view.next_row <= after.next_row <= view.row_icons.len()
            &&& after.next_row < view.row_icons.len() ==> view.row_icons[after.next_row as int] is Some
                && !view.icon_ids.contains_key(view.row_icons[after.next_row as int]->0)
            &&& forall|row: int|
                view.next_row <= row < after.next_row && #[trigger] view.row_icons[row] is Some
                    ==> view.icon_ids.contains_key(view.row_icons[row]->0)
            &&& after == (RendererView {
                next_row: after.next_row,
                icon_glyphs: after.icon_glyphs,
                ..view
            })
            &&& exists|rows: Seq<int>|
                #![trigger ascends(rows)]
                {
                    &&& ascends(rows)
                    &&& forall|row: int|
                        #![trigger view.row_icons[row]]
                        rows.contains(row) <==> view.next_row <= row < after.next_row
                            && view.row_icons[row] is Some
                    &&& after.icon_glyphs == view.icon_glyphs + Seq::new(
                        rows.len(),
                        |k: int|
                            IconGlyph {
                                id: view.icon_ids[view.row_icons[rows[k]]->0],
                                left_halves: 49,
                                top: icon_top_px(rows[k] as nat) as u128,
                                size: 24,
                            },
                    )
                }
        }),
{
    let after = view.with_known_icons();
    lemma_first_wanted(view, view.next_row);
    assert forall|row: int|
        view.next_row <= row < after.next_row && #[trigger] view.row_icons[row] is Some implies view.icon_ids.contains_key(
    view.row_icons[row]->0) by {
        assert(!view.wants(row));
    }
    if after.next_row < view.row_icons.len() {
        assert(view.wants(after.next_row as int));
    }
    lemma_known_rows(view, view.next_row, after.next_row);
    let rows = known_rows(view, view.next_row, after.next_row);
    assert(ascends(rows));
    assert forall|row: int| #![trigger view.row_icons[row]]
        rows.contains(row) <==> view.next_row <= row < after.next_row && view.row_icons[row] is Some by {}
    assert(after.icon_glyphs =~= view.icon_glyphs + Seq::new(
        rows.len(),
        |k: int|
            IconGlyph {
                id: view.icon_ids[view.row_icons[rows[k]]->0],
                left_halves: 49,
                top: icon_top_px(rows[k] as nat) as u128,
                size: 24,
            },
    ));
}

/// The rows from `from` up to `to` that name an icon.
spec fn known_rows(view: RendererView, from: nat, to: nat) -> Seq<int>
    decreases to,
{
    if to <= from {
        Seq::empty()
    } else if view.row_icons[to - 1] is Some {
        known_rows(view, from, (to - 1) as nat).push(to - 1)
    } else {
        known_rows(view, from, (to - 1) as nat)
    }
}

/// The known glyphs are those of these rows.
proof fn lemma_known_rows(view: RendererView, from: nat, to: nat)
    requires
        from <= to <= view.row_icons.len(),
        forall|row: int|
            from <= row < to && #[trigger] view.row_icons[row] is Some
                ==> view.icon_ids.contains_key(view.row_icons[row]->0),
    ensures
        ascends(known_rows(view, from, to)),
        forall|row: int|
            #![trigger view.row_icons[row]]
            known_rows(view, from, to).contains(row) <==> from <= row < to
                && view.row_icons[row] is Some,
        forall|k: int|
            0 <= k < known_rows(view, from, to).len() ==> from <= #[trigger] known_rows(
                view,
                from,
                to,
            )[k] < to,
        view.known_glyphs(from, to) == Seq::new(
            known_rows(view, from, to).len(),
            |k: int|
                IconGlyph {
                    id: view.icon_ids[view.row_icons[known_rows(view, from, to)[k]]->0],
                    left_halves: 49,
                    top: icon_top_px(known_rows(view, from, to)[k] as nat) as u128,
                    size: 24,
                },
        ),
    decreases to,
{
    if from < to {
        lemma_known_rows(view, from, (to - 1) as nat);
        let before = known_rows(view, from, (to - 1) as nat);
        let rows = known_rows(view, from, to);
        assert forall|row: int| #![trigger view.row_icons[row]]
            rows.contains(row) <==> from <= row < to && view.row_icons[row] is Some by {
            if before.contains(row) {
                let k = before.index_of(row);
                assert(rows[k] == row);
            }
            if rows.contains(row) && row != to - 1 {
                let k = rows.index_of(row);
                assert(before[k] == row);
            }
            if row == to - 1 && view.row_icons[row] is Some {
                assert(rows[before.len() as int] == row);
            }
            if rows.contains(row) && row == to - 1 && view.row_icons[row] is None {
                let k = rows.index_of(row);
                assert(before[k] < to - 1);
            }
        }
    }
    let rows = known_rows(view, from, to);
    assert(view.known_glyphs(from, to) =~= Seq::new(
        rows.len(),
        |k: int|
            IconGlyph {
                id: view.icon_ids[view.row_icons[rows[k]]->0],
                left_halves: 49,
                top: icon_top_px(rows[k] as nat) as u128,
                size: 24,
            },
    ));
}

/// An icon that was found gets the next id, counted modulo 65536, and a glyph on the row that asked
/// for it; one that was not found leaves the row bare. Either way the next row is up.
pub proof fn law_answers_for_icons(view: RendererView, source: IconSource)
    requires
        view.next_row < view.row_icons.len(),
        view.row_icons[view.next_row as int] is Some,
    ensures
        ({
            let name = view.row_icons[view.next_row as int]->0;
            let id = (view.icon_sources.len() % 65_536) as u16;
            view.with_icon(Some(source)) == (RendererView {
                icon_ids: view.icon_ids.insert(name, id),
                icon_names: view.icon_names.push(name),
                icon_sources: view.icon_sources.push(source),
                icon_glyphs: view.icon_glyphs.push(
                    IconGlyph {
                        id,
                        left_halves: 49,
                        top: icon_top_px(view.next_row) as u128,
                        size: 24,
                    },
                ),
                next_row: view.next_row + 1,
                ..view
            })
        }),
        view.with_icon(None) == (RendererView { next_row: view.next_row + 1, ..view }),
{
}

/// A letter comes from itself or from its capital.
proof fn lemma_letter(c: char, lower: char, small: char, capital: char)
    requires
        65 <= c as u32 <= 90 ==> lower as u32 == c as u32 + 32,
        (c as u32) < 65 || 90 < c as u32 ==> lower == c,
        97 <= small as u32 <= 122,
        small as u32 == capital as u32 + 32,
    ensures
        lower == small <==> c == small || c == capital,
{
}

/// Vector drawings are the files that end in `svg` or `svgz`, in capitals or not.
pub proof fn law_vector_extensions(extension: Seq<char>)
    ensures
        is_svg(extension) <==> {
            &&& extension.len() == 3 || extension.len() == 4
            &&& extension[0] == 's' || extension[0] == 'S'
            &&& extension[1] == 'v' || extension[1] == 'V'
            &&& extension[2] == 'g' || extension[2] == 'G'
            &&& extension.len() == 4 ==> extension[3] == 'z' || extension[3] == 'Z'
        },
{
    reveal_strlit("svg");
    reveal_strlit("svgz");
    let lower = lowered(extension);
    if extension.len() >= 3 {
        law_lowering(extension, 0);
        law_lowering(extension, 1);
        law_lowering(extension, 2);
        lemma_letter(extension[0], lower[0], 's', 'S');
        lemma_letter(extension[1], lower[1], 'v', 'V');
        lemma_letter(extension[2], lower[2], 'g', 'G');
    }
    if extension.len() >= 4 {
        law_lowering(extension, 3);
        lemma_letter(extension[3], lower[3], 'z', 'Z');
    }
    assert(lower.len() == extension.len());
    let vector = {
        &&& extension.len() == 3 || extension.len() == 4
        &&& extension[0] == 's' || extension[0] == 'S'
        &&& extension[1] == 'v' || extension[1] == 'V'
        &&& extension[2] == 'g' || extension[2] == 'G'
        &&& extension.len() == 4 ==> extension[3] == 'z' || extension[3] == 'Z'
    };
    if is_svg(extension) {
        assert(lower[0] == 's' && lower[1] == 'v' && lower[2] == 'g');
        if extension.len() == 4 {
            assert(lower[3] == 'z');
        }
    }
    if vector {
        assert(lower[0] == 's' && lower[1] == 'v' && lower[2] == 'g');
        if extension.len() == 3 {
            assert(lower =~= "svg"@);
        } else {
            assert(lower[3] == 'z');
            assert(lower =~= "svgz"@);
        }
    }
}

/// Behind a slash stands the last piece of a path.
proof fn lemma_pieces(directory: Seq<char>, name: Seq<char>)
    requires
        !name.contains('/'),
    ensures
        last_piece(name) == name,
        name.index_of_last('/') is None,
        last_piece(directory.push('/') + name) == name,
        (directory.push('/') + name).index_of_last('/') == Some(directory.len() as int),
        (directory.push('/') + name).take(directory.len() as int) == directory,
{
    let path = directory.push('/') + name;
    name.index_of_last_ensures('/');
    path.index_of_last_ensures('/');
    assert(path[directory.len() as int] == '/');
    assert(path.contains('/'));
    let at = path.index_of_last('/')->0;
    if at > directory.len() {
        assert(path[at] == name[at - directory.len() - 1]);
        assert(name.contains('/'));
    }
    assert(path.skip(at + 1) =~= name);
    assert(path.take(directory.len() as int) =~= directory);
}

/// The extension of a file is what stands behind the last dot of its name, in any directory.
pub proof fn law_extensions_stand_behind_the_last_dot(
    directory: Seq<char>,
    stem: Seq<char>,
    ending: Seq<char>,
)
    requires
        stem.len() > 0,
        !stem.contains('/'),
        !ending.contains('/'),
        !ending.contains('.'),
        stem != seq!['.'] || ending.len() > 0,
    ensures
        extension(stem.push('.') + ending) == Some(ending),
        extension(directory.push('/') + (stem.push('.') + ending)) == Some(ending),
{
    let name = stem.push('.') + ending;
    assert(!name.contains('/')) by {
        if name.contains('/') {
            let i = name.index_of('/');
            if i < stem.len() {
                assert(stem[i] == '/');
            } else if i > stem.len() {
                assert(ending[i - stem.len() - 1] == '/');
            }
        }
    }
    lemma_pieces(directory, name);
    assert(name[stem.len() as int] == '.');
    assert(name != seq!['.']);
    assert(name != seq!['.', '.']) by {
        if name == seq!['.', '.'] {
            assert(stem.len() + ending.len() == 1);
            assert(stem[0] == name[0]);
            assert(stem =~= seq!['.']);
        }
    }
    name.index_of_last_ensures('.');
    assert(name.contains('.'));
    let at = name.index_of_last('.')->0;
    if at > stem.len() {
        assert(ending[at - stem.len() - 1] == '.');
        assert(ending.contains('.'));
    }
    assert(name.skip(at + 1) =~= ending);
    assert(file_name(name) == Some(name));
    assert(file_name(directory.push('/') + name) == Some(name));
}

/// A name without a dot, or with none but the one that it begins with, has no extension.
pub proof fn law_names_without_a_dot_have_no_extension(directory: Seq<char>, name: Seq<char>)
    requires
        name.len() > 1 || name.len() == 1 && name[0] != '.',
        !name.contains('/'),
        forall|i: int| 0 < i < name.len() ==> #[trigger] name[i] != '.',
    ensures
        extension(name) is None,
        extension(directory.push('/') + name) is None,
{
    lemma_pieces(directory, name);
    if name.len() == 2 {
        assert(name[1] != '.');
    }
    name.index_of_last_ensures('.');
    assert(file_name(name) == Some(name));
    assert(file_name(directory.push('/') + name) == Some(name));
}

/// A slash or a single dot at the end of a path changes nothing; a path that goes up, and one that
/// names nothing, has no extension.
pub proof fn law_extensions_of_directories(path: Seq<char>)
    ensures
        extension(path.push('/')) == extension(path),
        extension(path.push('/').push('.')) == extension(path),
        extension(path.push('/').push('.').push('.')) is None,
        extension(Seq::<char>::empty()) is None,
        extension(seq!['.']) is None,
        extension(seq!['.', '.']) is None,
{
    let none = Seq::<char>::empty();
    lemma_pieces(path, none);
    assert(path.push('/') + none =~= path.push('/'));
    assert(file_name(path.push('/')) == file_name(path));
    lemma_pieces(path, seq!['.']);
    assert(path.push('/') + seq!['.'] =~= path.push('/').push('.'));
    assert(file_name(path.push('/').push('.')) == file_name(path));
    lemma_pieces(path, seq!['.', '.']);
    assert(path.push('/') + seq!['.', '.'] =~= path.push('/').push('.').push('.'));
    assert(file_name(path.push('/').push('.').push('.')) is None);
    assert(file_name(none) is None);
}

/// Each colour of a pixel is scaled by its alpha over 255, rounded down; alpha stays, as do bytes
/// that make no whole pixel.
pub proof fn law_premultiplying(data: Seq<u8>, pixel: int, channel: int)
    requires
        0 <= pixel,
        0 <= channel < 3,
    ensures
        premultiplied(data).len() == data.len(),
        4 * pixel + 3 < data.len() ==> {
            let alpha = data[4 * pixel + 3];
            let scaled = premultiplied(data)[4 * pixel + channel];
            &&& premultiplied(data)[4 * pixel + 3] == alpha
            &&& 255 * scaled <= data[4 * pixel + channel] * alpha < 255 * scaled + 255
        },
        4 * pixel + 3 >= data.len() > 4 * pixel + channel ==> premultiplied(data)[4 * pixel + channel]
            == data[4 * pixel + channel],
{
    if 4 * pixel + 3 < data.len() {
        let at = 4 * pixel + channel;
        assert(at % 4 == channel && at - at % 4 + 3 == 4 * pixel + 3);
        let colour = data[at];
        let alpha = data[4 * pixel + 3];
        assert(0 <= colour * alpha <= 255 * 255) by (nonlinear_arith)
            requires
                0 <= colour <= 255,
                0 <= alpha <= 255,
        ;
    }
}

/// Icons of ordinary sizes can be resampled to glyphs of ordinary sizes.
pub proof fn law_ordinary_icons_can_be_resampled(image: RasterImage, width: u16, height: u16)
    requires
        image.width <= 8192,
        width <= 8192,
        height <= 8192,
    ensures
        can_resize(image, width, height),
{
    let old_width = image.width;
    assert(4 * width * height <= 0x1000_0000) by (nonlinear_arith)
        requires
            0 <= width <= 8192,
            0 <= height <= 8192,
    ;
    assert(16 * old_width * height <= 0x4000_0000) by (nonlinear_arith)
        requires
            0 <= old_width <= 8192,
            0 <= height <= 8192,
    ;
}

/// An image has four bytes per pixel.
pub proof fn law_image_sizes(image: RasterImage, source: IconSource)
    ensures
        image.wf() <==> image.pixels@.len() == 4 * image.width * image.height,
        source is Svg ==> source.wf(),
        source matches IconSource::Raster(inner) ==> (source.wf() <==> inner.pixels@.len() == 4
            * inner.width * inner.height),
{
}

/// The view of a renderer holds just what its fields hold.
pub proof fn law_renderer_view(renderer: Renderer, icons: Seq<Option<String>>, i: int)
    ensures
        renderer@.width == renderer.width && renderer@.height == renderer.height,
        renderer@.layout_width == renderer.layout_width,
        renderer@.layout_height == renderer.layout_height,
        renderer@.text == renderer.text@ && renderer@.text_color == renderer.text_color,
        renderer@.titles == renderer.titles@ && renderer@.subtitles == renderer.subtitles@,
        renderer@.row_count == renderer.row_count,
        renderer@.sel_top == renderer.sel_top && renderer@.sel_height == renderer.sel_height,
        renderer@.caret_on == renderer.caret_on,
        renderer@.icon_glyphs == renderer.icon_glyphs@,
        icons_view(icons).len() == icons.len(),
        0 <= i < icons.len() ==> icons_view(icons)[i] == option_view(icons[i]),
{
}

} // verus!
