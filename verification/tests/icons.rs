use hks_shell::renderer::icons::{
    extension_of, icon_place, rasterize_icon, resolve_icon, Glyph, GlyphRequest, IconFile,
    IconPlace, IconSource,
};
use hks_shell::renderer::raster::{premultiply, RasterImage};
use std::io::Cursor;
use std::path::Path;

/// A PNG file of these RGBA pixels.
fn png(width: u32, height: u32, pixels: &[u8]) -> Vec<u8> {
    let picture = image::RgbaImage::from_raw(width, height, pixels.to_vec()).unwrap();
    let mut file = Cursor::new(Vec::new());
    picture.write_to(&mut file, image::ImageFormat::Png).unwrap();
    file.into_inner()
}

fn raster(width: u32, height: u32, pixels: &[u8]) -> IconSource {
    IconSource::Raster(RasterImage { width, height, pixels: pixels.to_vec() })
}

fn request(id: u16, width: u16, height: u16) -> GlyphRequest {
    GlyphRequest { id, width, height }
}

fn pixels(glyph: Glyph) -> Vec<u8> {
    match glyph {
        Glyph::Pixels(pixels) => pixels,
        _ => panic!("no pixels"),
    }
}

#[test]
fn absolute_paths_are_told_from_names() {
    assert_eq!(icon_place("/opt/app/icon.png"), IconPlace::File);
    assert_eq!(icon_place("/"), IconPlace::File);
    assert_eq!(icon_place("firefox"), IconPlace::Theme);
    assert_eq!(icon_place("./icon.png"), IconPlace::Theme);
    assert_eq!(icon_place("apps/icon.png"), IconPlace::Theme);
    assert_eq!(icon_place(""), IconPlace::Theme);
}

#[test]
fn vector_drawings_are_told_by_their_extension() {
    for extension in ["svg", "svgz", "SVG", "SvgZ"] {
        assert!(matches!(resolve_icon(extension, &[]), Some(IconFile::Svg)));
    }
    assert!(resolve_icon("svgx", b"<svg/>").is_none());
}

#[test]
fn raster_files_are_decoded() {
    let shades = [255, 0, 0, 255, 0, 128, 0, 64, 1, 2, 3, 4, 9, 9, 9, 0, 5, 6, 7, 8, 250, 251, 252, 253];
    let data = png(3, 2, &shades);
    for extension in ["png", "PNG"] {
        match resolve_icon(extension, &data) {
            Some(IconFile::Raster(image)) => {
                assert_eq!((image.width, image.height), (3, 2));
                assert_eq!(image.pixels, shades);
            }
            _ => panic!("not decoded"),
        }
    }
}

#[test]
fn what_cannot_be_decoded_is_refused() {
    let data = png(1, 1, &[1, 2, 3, 4]);
    assert!(resolve_icon("txt", &data).is_none());
    assert!(resolve_icon("", &data).is_none());
    assert!(resolve_icon("png", b"no picture").is_none());
    assert!(resolve_icon("png", &[]).is_none());
    assert!(resolve_icon("png", &data[..data.len() / 2]).is_none());
}

#[test]
fn alpha_is_premultiplied() {
    let mut data = vec![255, 128, 1, 128, 10, 20, 30, 255, 10, 20, 30, 0, 7, 8, 9];
    premultiply(&mut data);
    assert_eq!(data, [128, 64, 0, 128, 10, 20, 30, 255, 0, 0, 0, 0, 7, 8, 9]);
}

#[test]
fn premultiplied_colours_stay_below_alpha() {
    for colour in 0..=255u8 {
        for alpha in 0..=255u8 {
            let mut data = vec![colour, colour, colour, alpha];
            premultiply(&mut data);
            let expected = (colour as u16 * alpha as u16 / 255) as u8;
            assert_eq!(data, [expected, expected, expected, alpha]);
            assert!(expected <= alpha);
        }
    }
}

#[test]
fn glyphs_without_source_or_area_are_nothing() {
    let sources = [raster(1, 1, &[1, 2, 3, 255])];
    assert!(matches!(rasterize_icon(&sources, request(1, 24, 24)), Glyph::Nothing));
    assert!(matches!(rasterize_icon(&sources, request(0, 0, 24)), Glyph::Nothing));
    assert!(matches!(rasterize_icon(&sources, request(0, 24, 0)), Glyph::Nothing));
    assert!(matches!(rasterize_icon(&[], request(0, 24, 24)), Glyph::Nothing));
}

#[test]
fn vector_glyphs_are_left_to_their_owner() {
    let sources = [raster(1, 1, &[1, 2, 3, 255]), IconSource::Svg(7)];
    assert!(matches!(rasterize_icon(&sources, request(1, 24, 24)), Glyph::Svg(7)));
    assert!(matches!(rasterize_icon(&sources, request(1, 0, 24)), Glyph::Nothing));
}

#[test]
fn an_icon_of_the_asked_size_is_only_premultiplied() {
    let straight = [255, 128, 1, 128, 10, 20, 30, 255];
    let sources = [raster(2, 1, &straight)];
    let drawn = pixels(rasterize_icon(&sources, request(0, 2, 1)));
    assert_eq!(drawn, [128, 64, 0, 128, 10, 20, 30, 255]);
}

#[test]
fn icons_are_resampled_to_the_asked_size() {
    let straight: Vec<u8> = (0..8 * 8).flat_map(|_| [200u8, 100, 50, 255]).collect();
    let sources = [raster(8, 8, &straight)];
    let drawn = pixels(rasterize_icon(&sources, request(0, 24, 12)));
    assert_eq!(drawn.len(), 24 * 12 * 4);
    assert!(drawn.chunks(4).all(|pixel| pixel == [200, 100, 50, 255]));

    let checked: Vec<u8> =
        (0..64u32).flat_map(|i| [(i * 4) as u8, 255 - (i * 3) as u8, 7, (i * 2 + 90) as u8]).collect();
    let picture = image::RgbaImage::from_raw(8, 8, checked.clone()).unwrap();
    let filter = image::imageops::FilterType::Lanczos3;
    let mut expected = image::imageops::resize(&picture, 5, 11, filter).into_raw();
    premultiply(&mut expected);
    let drawn = pixels(rasterize_icon(&[raster(8, 8, &checked)], request(0, 5, 11)));
    assert_eq!(drawn, expected);
}

#[test]
fn an_empty_icon_gives_transparent_pixels() {
    let sources = [raster(0, 0, &[]), raster(0, 3, &[])];
    for id in 0..2 {
        let drawn = pixels(rasterize_icon(&sources, request(id, 3, 2)));
        assert_eq!(drawn, vec![0; 24]);
    }
}

#[test]
fn extensions_are_found_in_the_file_name() {
    assert_eq!(extension_of("/usr/share/icons/app.png"), Some("png".to_string()));
    assert_eq!(extension_of("/opt/a.b/org.app.SVG"), Some("SVG".to_string()));
    assert_eq!(extension_of("/opt/a.b/icon"), None);
    assert_eq!(extension_of("/opt/.png"), None);
    assert_eq!(extension_of("icon."), Some(String::new()));
    assert_eq!(extension_of("dir/app.png/./"), Some("png".to_string()));
    assert_eq!(extension_of("dir/app.png/.."), None);
    assert_eq!(extension_of(""), None);
}

#[test]
fn extensions_are_those_of_paths() {
    // Every path of up to seven characters from these.
    let letters = ['/', '.', 'a', 'é'];
    for length in 0..8u32 {
        for mut number in 0..4usize.pow(length) {
            let mut path = String::new();
            for _ in 0..length {
                path.push(letters[number % 4]);
                number /= 4;
            }
            let expected = Path::new(&path).extension().map(|e| e.to_str().unwrap().to_string());
            assert_eq!(extension_of(&path), expected, "{path}");
        }
    }
}
