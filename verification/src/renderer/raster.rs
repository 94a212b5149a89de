//! Pixel images, four bytes (red, green, blue, alpha) per pixel, row by row.
use vstd::prelude::*;

verus! {

/// A decoded image with straight (not premultiplied) alpha.
pub struct RasterImage {
    pub width: u32,
    pub height: u32,
    pub pixels: Vec<u8>,
}

impl RasterImage {
    /// There are four bytes for each pixel.
    pub open spec fn wf(&self) -> bool {
        self.pixels@.len() == 4 * self.width * self.height
    }
}

/// Whether resampling `image` to the given size stays within what one allocation can hold: the
/// result has four bytes per pixel, and sixteen are used per pixel of the image in between, which
/// has the old width and the new height.
pub open spec fn can_resize(image: RasterImage, width: u16, height: u16) -> bool {
    4 * width * height <= isize::MAX && 16 * image.width * height <= isize::MAX
}

/// What the `image` crate decodes from the bytes of a file with the given extension: width, height
/// and pixels; `None` where it knows no decoder for the extension or the decoder fails.
pub uninterp spec fn decoded_image(extension: Seq<char>, data: Seq<u8>) -> Option<
    (u32, u32, Seq<u8>),
>;

/// Calls `image::load_from_memory_with_format`, with the format that `ImageFormat::from_extension`
/// finds, and takes the result as RGBA of eight bits with `DynamicImage::to_rgba8`.
///
/// What comes out is a function of the extension and the bytes, and has four bytes per pixel.
#[verifier::external_body]
pub(crate) fn decode_image(extension: &str, data: &[u8]) -> (decoded: Option<RasterImage>)
    ensures
        match decoded {
            Some(image) => image.wf() && decoded_image(extension@, data@) == Some(
                (image.width, image.height, image.pixels@),
            ),
            None => decoded_image(extension@, data@) is None,
        },
{
    let format = image::ImageFormat::from_extension(extension)?;
    let image = image::load_from_memory_with_format(data, format).ok()?.to_rgba8();
    let (width, height) = image.dimensions();
    Some(RasterImage { width, height, pixels: image.into_raw() })
}

/// Whether `resized` is an outcome of `image::imageops::resize` with the Lanczos3 filter, on an
/// image of `width` times `height` such `pixels`, for `new_width` times `new_height` ones. There may
/// be several: resampling goes through the platform's sine function, whose precision varies.
pub uninterp spec fn resampled(
    width: u32,
    height: u32,
    pixels: Seq<u8>,
    new_width: u16,
    new_height: u16,
    resized: Seq<u8>,
) -> bool;

/// Calls `image::imageops::resize` with the Lanczos3 filter.
///
/// The result is an outcome of resampling this image to the asked size, with four bytes for each
/// pixel. An image of that size already is copied, and an empty one gives zeros. Which colours
/// resampling to another size gives is left unsaid, as they differ between platforms.
#[verifier::external_body]
pub(crate) fn resize_image(image: &RasterImage, width: u16, height: u16) -> (pixels: Vec<u8>)
    requires
        image.wf(),
        can_resize(*image, width, height),
    ensures
        resampled(image.width, image.height, image.pixels@, width, height, pixels@),
        pixels@.len() == 4 * width * height,
        image.width == width && image.height == height ==> pixels@ == image.pixels@,
        image.width == 0 || image.height == 0 ==> forall|i: int|
            0 <= i < pixels@.len() ==> #[trigger] pixels@[i] == 0,
{
    let source = image::ImageBuffer::<image::Rgba<u8>, &[u8]>::from_raw(
        image.width,
        image.height,
        image.pixels.as_slice(),
    ).expect("four bytes per pixel");
    let filter = image::imageops::FilterType::Lanczos3;
    image::imageops::resize(&source, width as u32, height as u32, filter).into_raw()
}

/// The pixels with each colour scaled by the pixel's alpha. Bytes after the last whole pixel stay.
pub open spec fn premultiplied(data: Seq<u8>) -> Seq<u8> {
    Seq::new(
        data.len(),
        |i: int|
            if i % 4 != 3 && i - i % 4 + 3 < data.len() {
                (data[i] * data[i - i % 4 + 3] / 255) as u8
            } else {
                data[i]
            },
    )
}

/// One colour scaled by an alpha.
fn scale_channel(channel: u8, alpha: u8) -> (scaled: u8)
    ensures
        scaled == (channel * alpha / 255) as u8,
{
    proof {
        assert(channel * alpha <= 255 * 255) by (nonlinear_arith)
            requires
                channel <= 255,
                alpha <= 255,
        ;
    }
    (channel as u16 * alpha as u16 / 255) as u8
}

/// Premultiplies alpha, in place.
pub fn premultiply(data: &mut Vec<u8>)
    ensures
        final(data)@ == premultiplied(old(data)@),
{
    let ghost straight = data@;
    let mut at: usize = 0;
    while data.len() - at >= 4
        invariant
            at % 4 == 0,
            at <= data.len(),
            data@.len() == straight.len(),
            forall|i: int| 0 <= i < at ==> #[trigger] data@[i] == premultiplied(straight)[i],
            forall|i: int| at <= i < data@.len() ==> #[trigger] data@[i] == straight[i],
        decreases data.len() - at,
    {
        let alpha: u8 = data[at + 3];
        let red: u8 = scale_channel(data[at], alpha);
        let green: u8 = scale_channel(data[at + 1], alpha);
        let blue: u8 = scale_channel(data[at + 2], alpha);
        data.set(at, red);
        data.set(at + 1, green);
        data.set(at + 2, blue);
        at = at + 4;
    }
    assert(data@ =~= premultiplied(straight));
}

/// No colour of a premultiplied pixel exceeds its alpha, and the alpha is unchanged.
pub proof fn law_premultiplied_colours_stay_below_alpha(data: Seq<u8>, pixel: int)
    requires
        0 <= pixel,
        4 * pixel + 3 < data.len(),
    ensures
        premultiplied(data)[4 * pixel + 3] == data[4 * pixel + 3],
        forall|c: int|
            4 * pixel <= c < 4 * pixel + 3 ==> #[trigger] premultiplied(data)[c]
                <= data[4 * pixel + 3],
{
    let alpha = data[4 * pixel + 3];
    assert forall|c: int| 4 * pixel <= c < 4 * pixel + 3 implies #[trigger] premultiplied(
        data,
    )[c] <= alpha by {
        assert(c - c % 4 + 3 == 4 * pixel + 3);
        let colour = data[c];
        assert(colour * alpha <= 255 * alpha) by (nonlinear_arith)
            requires
                colour <= 255,
                alpha >= 0,
        ;
        assert(colour * alpha >= 0) by (nonlinear_arith)
            requires
                colour >= 0,
                alpha >= 0,
        ;
    }
}

/// Premultiplying leaves an opaque pixel as it is and turns a fully transparent one to zeros.
pub proof fn law_premultiplying_keeps_opaque_pixels(data: Seq<u8>, pixel: int, c: int)
    requires
        0 <= pixel,
        4 * pixel + 3 < data.len(),
        4 * pixel <= c < 4 * pixel + 3,
    ensures
        data[4 * pixel + 3] == 255 ==> premultiplied(data)[c] == data[c],
        data[4 * pixel + 3] == 0 ==> premultiplied(data)[c] == 0,
{
    assert(c - c % 4 + 3 == 4 * pixel + 3);
}

} // verus!
