//! Application icons: decide where an icon name points and how its file is decoded, and
//! rasterize on demand for the custom-glyph mechanism of the text pipeline.
use super::raster::{
    can_resize, decode_image, decoded_image, premultiplied, premultiply, resampled,
    resize_image, RasterImage,
};
use crate::text::{
    chars_of, last_place, lowered, option_view, same_text, text_between, to_lower_ascii,
};
use vstd::prelude::*;

verus! {

/// A decoded icon source, rasterized on demand at the requested size.
pub enum IconSource {
    /// A vector drawing, by the number under which its owner keeps it.
    Svg(usize),
    Raster(RasterImage),
}

impl IconSource {
    /// A raster source has its four bytes per pixel.
    pub open spec fn wf(&self) -> bool {
        self matches IconSource::Raster(image) ==> image.wf()
    }
}

/// Where to look for the icon that an `Icon=` key names.
#[derive(Clone, Copy, PartialEq, Eq, Structural, Debug)]
pub enum IconPlace {
    /// The key is the absolute path of a file.
    File,
    /// The key is a name for the icon themes to look up.
    Theme,
}

/// Tells an absolute path from an icon name.
pub fn icon_place(name: &str) -> (place: IconPlace)
    ensures
        place == if name@.len() > 0 && name@[0] == '/' {
            IconPlace::File
        } else {
            IconPlace::Theme
        },
{
    if !name.is_empty() && name.get_char(0) == '/' {
        IconPlace::File
    } else {
        IconPlace::Theme
    }
}

/// What stands behind the last slash of a path.
pub open spec fn last_piece(path: Seq<char>) -> Seq<char> {
    match path.index_of_last('/') {
        Some(i) => path.skip(i + 1),
        None => path,
    }
}

/// The name of the file or directory that a path leads to: its last piece that is neither empty
/// nor a single dot. There is none where that piece goes up a directory.
pub open spec fn file_name(path: Seq<char>) -> Option<Seq<char>>
    decreases path.len(),
{
    let piece = last_piece(path);
    if piece == seq!['.', '.'] {
        None
    } else if piece.len() > 0 && piece != seq!['.'] {
        Some(piece)
    } else {
        proof {
            path.index_of_last_ensures('/');
        }
        match path.index_of_last('/') {
            Some(i) => file_name(path.take(i)),
            None => None,
        }
    }
}

/// The extension of the file that a path leads to: what stands behind the last dot of its name,
/// unless that is the dot that the name begins with.
pub open spec fn extension(path: Seq<char>) -> Option<Seq<char>> {
    match file_name(path) {
        Some(name) => match name.index_of_last('.') {
            Some(i) => if i > 0 {
                Some(name.skip(i + 1))
            } else {
                None
            },
            None => None,
        },
        None => None,
    }
}

/// The extension of the file that a path leads to. Without one, an icon can't be decoded.
pub fn extension_of(path: &str) -> (found: Option<String>)
    ensures
        option_view(found) == extension(path@),
{
    let chars: Vec<char> = chars_of(path);
    let mut end: usize = chars.len();
    assert(chars@.take(end as int) =~= path@);
    loop
        invariant
            chars@ == path@,
            end <= chars@.len(),
            extension(path@) == extension(path@.take(end as int)),
        decreases end,
    {
        let ghost part = path@.take(end as int);
        let slash: Option<usize> = last_place(&chars, end, '/');
        let start: usize = match slash {
            Some(i) => i + 1,
            None => 0,
        };
        let name: String = text_between(&chars, start, end);
        let ghost piece = last_piece(part);
        assert(name@ =~= piece);
        let len: usize = end - start;
        if len == 2 && chars[start] == '.' && chars[start + 1] == '.' {
            assert(piece =~= seq!['.', '.']);
            return None;
        }
        if len > 1 || (len == 1 && chars[start] != '.') {
            assert(file_name(part) == Some(piece)) by {
                assert(piece[0] == chars@[start as int]);
                if len == 2 {
                    assert(piece[1] == chars@[start + 1]);
                }
            }
            let letters: Vec<char> = chars_of(name.as_str());
            let dot: Option<usize> = last_place(&letters, letters.len(), '.');
            assert(letters@.take(letters.len() as int) =~= piece);
            return match dot {
                Some(i) => if i > 0 {
                    let found: String = text_between(&letters, i + 1, letters.len());
                    assert(found@ =~= piece.skip(i + 1));
                    Some(found)
                } else {
                    None
                },
                None => None,
            };
        }
        proof {
            if len == 1 {
                assert(piece =~= seq!['.']);
            }
        }
        match slash {
            Some(i) => {
                assert(part.take(i as int) =~= path@.take(i as int));
                end = i;
            },
            None => {
                return None;
            },
        }
    }
}

/// Whether a file with this extension is a vector drawing.
pub open spec fn is_svg(extension: Seq<char>) -> bool {
    lowered(extension) == "svg"@ || lowered(extension) == "svgz"@
}

/// What an icon's file turned out to be.
pub enum IconFile {
    /// A vector drawing, still to be parsed.
    Svg,
    Raster(RasterImage),
}

/// Decides by its extension how the bytes of an icon's file are decoded, and decodes them unless
/// it is a vector drawing. Returns `None` if they can't be decoded.
pub fn resolve_icon(extension: &str, data: &[u8]) -> (file: Option<IconFile>)
    ensures
        is_svg(extension@) ==> file == Some(IconFile::Svg),
        !is_svg(extension@) ==> match file {
            Some(IconFile::Raster(image)) => image.wf() && decoded_image(extension@, data@) == Some(
                (image.width, image.height, image.pixels@),
            ),
            Some(IconFile::Svg) => false,
            None => decoded_image(extension@, data@) is None,
        },
{
    let lower: String = to_lower_ascii(extension);
    if same_text(lower.as_str(), "svg") || same_text(lower.as_str(), "svgz") {
        return Some(IconFile::Svg);
    }
    match decode_image(extension, data) {
        Some(image) => Some(IconFile::Raster(image)),
        None => None,
    }
}

/// What the text pipeline asks for: the icon with this id, in this many pixels.
#[derive(Clone, Copy)]
pub struct GlyphRequest {
    pub id: u16,
    pub width: u16,
    pub height: u16,
}

/// The answer to a `GlyphRequest`.
pub enum Glyph {
    /// There is nothing to draw.
    Nothing,
    /// The vector drawing with this number is to be drawn.
    Svg(usize),
    /// Premultiplied RGBA of the asked size.
    Pixels(Vec<u8>),
}

/// Rasterize an icon (by id = index into `sources`) at the size asked for, returning
/// premultiplied RGBA; a vector drawing is left to its owner.
pub fn rasterize_icon(sources: &[IconSource], request: GlyphRequest) -> (glyph: Glyph)
    requires
        forall|i: int| 0 <= i < sources@.len() ==> (#[trigger] sources@[i]).wf(),
        request.id < sources@.len() ==> (sources@[request.id as int] matches IconSource::Raster(image)
            ==> can_resize(image, request.width, request.height)),
    ensures
        request.id >= sources@.len() || request.width == 0 || request.height == 0 ==> glyph
            == Glyph::Nothing,
        request.id < sources@.len() && request.width > 0 && request.height > 0 ==> match (
            sources@[request.id as int],
            glyph,
        ) {
            (IconSource::Svg(drawing), Glyph::Svg(drawn)) => drawn == drawing,
            (IconSource::Raster(image), Glyph::Pixels(pixels)) => {
                &&& pixels@.len() == 4 * request.width * request.height
                &&& exists|resized: Seq<u8>|
                    pixels@ == #[trigger] premultiplied(resized) && resampled(
                        image.width,
                        image.height,
                        image.pixels@,
                        request.width,
                        request.height,
                        resized,
                    )
                &&& image.width == request.width && image.height == request.height ==> pixels@
                    == premultiplied(image.pixels@)
                &&& image.width == 0 || image.height == 0 ==> forall|i: int|
                    0 <= i < pixels@.len() ==> #[trigger] pixels@[i] == 0
            },
            _ => false,
        },
{
    if request.id as usize >= sources.len() || request.width == 0 || request.height == 0 {
        return Glyph::Nothing;
    }
    match &sources[request.id as usize] {
        IconSource::Svg(drawing) => Glyph::Svg(*drawing),
        IconSource::Raster(image) => {
            let mut pixels: Vec<u8> = resize_image(image, request.width, request.height);
            premultiply(&mut pixels);
            Glyph::Pixels(pixels)
        },
    }
}

} // verus!
