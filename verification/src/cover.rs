//! Cover images: fitting an image of any shape into a square.
//!
//! The image is scaled so that its longer side has the side length of the
//! square, and the shorter side is padded with black on both sides. Decoding,
//! resampling and encoding are the work of the `image` crate; where the
//! pixels go is decided here.

use vstd::prelude::*;
use vstd::pervasive::unreached;
use vstd::arithmetic::div_mod::{
    lemma_div_is_ordered, lemma_div_multiples_vanish, lemma_div_pos_is_pos,
    lemma_fundamental_div_mod, lemma_mod_bound,
};
use crate::error::{Error, ImageFault};
use crate::paths::{
    companion_replaces_the_compound_extension, companion_text, file_name,
    lemma_stem_end_of_dotted, metadata_stem, metadata_suffix, stem_end, stem_end_of,
};
use crate::text::has_suffix;
use crate::text::{chars_of, slice_text};

verus! {

/// Where the scaled image lies in the square: its size, and the padding on
/// each of its four sides.
#[derive(Debug, Clone, Copy, PartialEq, Eq)]
pub struct Layout {
    /// The width of the scaled image.
    pub width: u32,
    /// The height of the scaled image.
    pub height: u32,
    /// The padding left of the scaled image.
    pub pad_left: u32,
    /// The padding right of the scaled image.
    pub pad_right: u32,
    /// The padding above the scaled image.
    pub pad_top: u32,
    /// The padding below the scaled image.
    pub pad_bottom: u32,
}

/// The length of the shorter side after scaling: `side` scaled by the
/// factor that takes `longest` to `target`, rounded down.
pub open spec fn scaled(target: int, side: int, longest: int) -> int {
    target * side / longest
}

/// The padding before the scaled image along an axis on which it has
/// `extent` pixels: half of what is left, rounded down.
pub open spec fn leading_pad(target: int, extent: int) -> int {
    (target - extent) / 2
}

/// The padding behind the scaled image along an axis on which it has
/// `extent` pixels: what the leading padding leaves.
pub open spec fn trailing_pad(target: int, extent: int) -> int {
    (target - extent) - leading_pad(target, extent)
}

/// The layout of an image of `a` by `b` pixels in a square of side `target`.
/// A wide image fills the width and is padded above and below; any other
/// fills the height and is padded left and right.
pub open spec fn layout_of(a: int, b: int, target: int) -> Layout {
    if a > b {
        let height = scaled(target, b, a);
        Layout {
            width: target as u32,
            height: height as u32,
            pad_left: 0,
            pad_right: 0,
            pad_top: leading_pad(target, height) as u32,
            pad_bottom: trailing_pad(target, height) as u32,
        }
    } else {
        let width = scaled(target, a, b);
        Layout {
            width: width as u32,
            height: target as u32,
            pad_left: leading_pad(target, width) as u32,
            pad_right: trailing_pad(target, width) as u32,
            pad_top: 0,
            pad_bottom: 0,
        }
    }
}

/// The shorter side does not grow beyond the target when scaled.
pub proof fn lemma_scaled_fits(target: int, side: int, longest: int)
    requires
        0 <= target,
        0 <= side <= longest,
        0 < longest,
    ensures
        0 <= scaled(target, side, longest) <= target,
{
    assert(0 <= target * side <= target * longest) by (nonlinear_arith)
        requires
            0 <= target,
            0 <= side <= longest,
    ;
    lemma_div_is_ordered(target * side, target * longest, longest);
    lemma_div_multiples_vanish(target, longest);
    assert(target * longest == longest * target) by (nonlinear_arith);
    lemma_div_pos_is_pos(target * side, longest);
}

/// The layout of an image with a width and a height fills the square: along
/// each axis the scaled image and its padding add up to the side length.
pub proof fn layout_fills_the_square(a: int, b: int, target: int)
    requires
        0 < a <= u32::MAX,
        0 < b <= u32::MAX,
        0 <= target <= u32::MAX,
    ensures
        ({
            let layout = layout_of(a, b, target);
            &&& layout.width + layout.pad_left + layout.pad_right == target
            &&& layout.height + layout.pad_top + layout.pad_bottom == target
        }),
{
    if a > b {
        lemma_scaled_fits(target, b, a);
    } else {
        lemma_scaled_fits(target, a, b);
    }
}

/// Computes the layout of an image of `a` by `b` pixels in a square of side
/// `target_size`, or `None` where the image has neither width nor height.
///
/// The scaled image and its padding fill the square exactly, along both axes.
/// Where the padding cannot be split evenly, the side behind the image gets
/// the one pixel more.
pub fn fill_layout(a: u32, b: u32, target_size: u32) -> (layout: Option<Layout>)
    ensures
        match layout {
            Some(layout) => {
                &&& a > 0 || b > 0
                &&& layout == layout_of(a as int, b as int, target_size as int)
                &&& layout.width + layout.pad_left + layout.pad_right == target_size
                &&& layout.height + layout.pad_top + layout.pad_bottom == target_size
                &&& layout.pad_left <= layout.pad_right <= layout.pad_left + 1
                &&& layout.pad_top <= layout.pad_bottom <= layout.pad_top + 1
            },
            None => a == 0 && b == 0,
        },
{
    if a == 0 && b == 0 {
        return None;
    }
    let t = target_size as u64;
    if a > b {
        proof {
            lemma_scaled_fits(target_size as int, b as int, a as int);
            assert(t * (b as u64) <= 0xffff_ffff * 0xffff_ffff) by (nonlinear_arith)
                requires
                    t <= 0xffff_ffff,
                    (b as u64) <= 0xffff_ffff,
            ;
        }
        let height = (t * (b as u64) / (a as u64)) as u32;
        let slack = target_size - height;
        let pad_top = slack / 2;
        Some(
            Layout {
                width: target_size,
                height,
                pad_left: 0,
                pad_right: 0,
                pad_top,
                pad_bottom: slack - pad_top,
            },
        )
    } else {
        proof {
            lemma_scaled_fits(target_size as int, a as int, b as int);
            assert(t * (a as u64) <= 0xffff_ffff * 0xffff_ffff) by (nonlinear_arith)
                requires
                    t <= 0xffff_ffff,
                    (a as u64) <= 0xffff_ffff,
            ;
        }
        let width = (t * (a as u64) / (b as u64)) as u32;
        let slack = target_size - width;
        let pad_left = slack / 2;
        Some(
            Layout {
                width,
                height: target_size,
                pad_left,
                pad_right: slack - pad_left,
                pad_top: 0,
                pad_bottom: 0,
            },
        )
    }
}

/// A color: its red, green and blue parts.
pub type Color = (u8, u8, u8);

/// An image in memory. The pixels stand row by row from the top, in each row
/// from the left, and each pixel is three bytes: red, green and blue.
#[derive(Debug)]
pub struct Raster {
    /// The number of pixels in a row.
    pub width: u32,
    /// The number of rows.
    pub height: u32,
    /// The bytes of the pixels.
    pub pixels: Vec<u8>,
}

/// What a `Raster` stands for.
pub struct RasterView {
    /// The number of pixels in a row.
    pub width: nat,
    /// The number of rows.
    pub height: nat,
    /// The bytes of the pixels.
    pub pixels: Seq<u8>,
}

impl View for Raster {
    type V = RasterView;

    open spec fn view(&self) -> RasterView {
        RasterView { width: self.width as nat, height: self.height as nat, pixels: self.pixels@ }
    }
}

impl RasterView {
    /// True when the image holds three bytes for each of its pixels, and no more.
    pub open spec fn wf(self) -> bool {
        self.pixels.len() == 3 * self.width * self.height
    }

    /// The index of part `c` of the pixel in column `x` of row `y`.
    pub open spec fn offset(self, x: int, y: int, c: int) -> int {
        (y * self.width + x) * 3 + c
    }

    /// Part `c` of the pixel in column `x` of row `y`.
    pub open spec fn sample(self, x: int, y: int, c: int) -> u8 {
        self.pixels[self.offset(x, y, c)]
    }
}

impl Raster {
    /// True when the image holds three bytes for each of its pixels, and no more.
    pub open spec fn wf(&self) -> bool {
        self@.wf()
    }
}

/// Part `c` of `color`: red for 0, green for 1, blue otherwise.
pub open spec fn channel_of(color: Color, c: int) -> u8 {
    if c == 0 {
        color.0
    } else if c == 1 {
        color.1
    } else {
        color.2
    }
}

/// What a padded image shows in part `c` of the pixel in column `x` of row
/// `y`: the image `inner`, moved right by `pad_left` and down by `pad_top`,
/// where it covers the pixel, and `color` elsewhere.
pub open spec fn padded_sample(
    inner: RasterView,
    pad_left: int,
    pad_top: int,
    color: Color,
    x: int,
    y: int,
    c: int,
) -> u8 {
    if pad_left <= x < pad_left + inner.width && pad_top <= y < pad_top + inner.height {
        inner.sample(x - pad_left, y - pad_top, c)
    } else {
        channel_of(color, c)
    }
}

/// True when `canvas` is `inner` with `color` around it: `pad_left` columns
/// to its left, `pad_right` to its right, `pad_top` rows above it and
/// `pad_bottom` below it.
pub open spec fn is_padded(
    canvas: RasterView,
    inner: RasterView,
    pad_left: int,
    pad_right: int,
    pad_top: int,
    pad_bottom: int,
    color: Color,
) -> bool {
    &&& canvas.width == inner.width + pad_left + pad_right
    &&& canvas.height == inner.height + pad_top + pad_bottom
    &&& canvas.wf()
    &&& forall|x: int, y: int, c: int|
        0 <= x < canvas.width && 0 <= y < canvas.height && 0 <= c < 3 ==> canvas.sample(x, y, c)
            == #[trigger] padded_sample(inner, pad_left, pad_top, color, x, y, c)
}

/// The pixels of a row stand before those of every later row.
proof fn lemma_row_before(width: int, x: int, y: int, later: int)
    requires
        0 <= x < width,
        0 <= y < later,
    ensures
        y * width + x < later * width,
        0 <= y * width,
{
    assert(y * width + width <= later * width) by (nonlinear_arith)
        requires
            y + 1 <= later,
            0 <= width,
    ;
    assert(0 <= y * width) by (nonlinear_arith)
        requires
            0 <= y,
            0 <= width,
    ;
}

/// Puts `pad_color` around an image: `pad_left` columns to its left,
/// `pad_right` to its right, `pad_top` rows above it and `pad_bottom` below.
pub fn pad_image(
    img: &Raster,
    pad_left: u32,
    pad_right: u32,
    pad_top: u32,
    pad_bottom: u32,
    pad_color: Color,
) -> (canvas: Raster)
    requires
        img.wf(),
        img.width + pad_left + pad_right <= u32::MAX,
        img.height + pad_top + pad_bottom <= u32::MAX,
    ensures
        is_padded(
            canvas@,
            img@,
            pad_left as int,
            pad_right as int,
            pad_top as int,
            pad_bottom as int,
            pad_color,
        ),
{
    let width = img.width + pad_left + pad_right;
    let height = img.height + pad_top + pad_bottom;
    let ghost w = width as int;
    let ghost left = pad_left as int;
    let ghost top = pad_top as int;
    let mut pixels: Vec<u8> = Vec::new();
    let mut y: u32 = 0;
    assert(0 * w == 0) by (nonlinear_arith);
    while y < height
        invariant
            y <= height,
            w == width,
            left == pad_left,
            top == pad_top,
            img.wf(),
            width == img.width + pad_left + pad_right,
            height == img.height + pad_top + pad_bottom,
            pixels@.len() == (y * w) * 3,
            forall|xx: int, yy: int, c: int|
                0 <= xx < w && 0 <= yy < y && 0 <= c < 3 ==> pixels@[(yy * w + xx) * 3 + c]
                    == #[trigger] padded_sample(img@, left, top, pad_color, xx, yy, c),
        decreases height - y,
    {
        let mut x: u32 = 0;
        while x < width
            invariant
                x <= width,
                y < height,
                w == width,
                left == pad_left,
                top == pad_top,
                img.wf(),
                width == img.width + pad_left + pad_right,
                height == img.height + pad_top + pad_bottom,
                pixels@.len() == (y * w + x) * 3,
                forall|xx: int, yy: int, c: int|
                    0 <= xx < w && 0 <= c < 3 && (0 <= yy < y || (yy == y && xx < x))
                        ==> pixels@[(yy * w + xx) * 3 + c] == #[trigger] padded_sample(
                        img@,
                        left,
                        top,
                        pad_color,
                        xx,
                        yy,
                        c,
                    ),
            decreases width - x,
        {
            let ghost before = pixels@;
            let inside = x >= pad_left && x - pad_left < img.width && y >= pad_top && y - pad_top
                < img.height;
            if inside {
                let column = (x - pad_left) as usize;
                let row = (y - pad_top) as usize;
                let stride = img.width as usize;
                let total = img.pixels.len();
                proof {
                    let cells = img.height as int * stride as int;
                    lemma_row_before(stride as int, column as int, row as int, img.height as int);
                    assert(3 * (img.width as nat) * (img.height as nat) == cells * 3)
                        by (nonlinear_arith)
                        requires
                            cells == img.height as int * stride as int,
                            stride == img.width,
                    ;
                    assert(total == cells * 3);
                    assert(row * stride + column < cells);
                }
                let at = (row * stride + column) * 3;
                pixels.push(img.pixels[at]);
                pixels.push(img.pixels[at + 1]);
                pixels.push(img.pixels[at + 2]);
            } else {
                pixels.push(pad_color.0);
                pixels.push(pad_color.1);
                pixels.push(pad_color.2);
            }
            proof {
                assert forall|xx: int, yy: int, c: int|
                    0 <= xx < w && 0 <= c < 3 && (0 <= yy < y || (yy == y && xx < x + 1))
                    implies pixels@[(yy * w + xx) * 3 + c] == #[trigger] padded_sample(
                    img@,
                    left,
                    top,
                    pad_color,
                    xx,
                    yy,
                    c,
                ) by {
                    if yy == y && xx == x {
                    } else {
                        if yy < y {
                            lemma_row_before(w, xx, yy, y as int);
                        }
                        assert(pixels@[(yy * w + xx) * 3 + c] == before[(yy * w + xx) * 3 + c]);
                    }
                }
            }
            x += 1;
        }
        proof {
            assert((y + 1) * w == y * w + w) by (nonlinear_arith);
        }
        y += 1;
    }
    proof {
        assert(3 * (width as nat) * (height as nat) == (height * w) * 3) by (nonlinear_arith)
            requires
                w == width,
        ;
    }
    Raster { width, height, pixels }
}

/// The formats in which cover images are read and written.
#[derive(Debug, Clone, Copy, PartialEq, Eq)]
pub enum Format {
    /// Portable Network Graphics.
    Png,
    /// JPEG.
    Jpeg,
}

/// The extension of the file name of `path`, without its dot; empty where
/// the file name has none.
pub open spec fn extension_of(path: Seq<char>) -> Seq<char> {
    if stem_end(path) < path.len() {
        path.subrange(stem_end(path) + 1, path.len() as int)
    } else {
        Seq::empty()
    }
}

/// The lower-case letter of an upper-case letter of ASCII, and every other
/// character as it is.
pub open spec fn lowered_char(c: char) -> char {
    if 'A' <= c && c <= 'Z' {
        ((c as u8 + 32) as u8) as char
    } else {
        c
    }
}

/// `text` with its upper-case letters of ASCII turned into lower case.
pub open spec fn lowered(text: Seq<char>) -> Seq<char> {
    text.map_values(|c: char| lowered_char(c))
}

/// The format, of the two that this library reads and writes, that the
/// `image` crate takes a file with the extension `extension` to have: PNG
/// for `png` and `apng`, JPEG for `jpg`, `jpeg` and `jfif`, in upper or lower
/// case; `None` for every other extension, whether the crate knows it or not.
pub open spec fn format_named(extension: Seq<char>) -> Option<Format> {
    let name = lowered(extension);
    if name == "png"@ || name == "apng"@ {
        Some(Format::Png)
    } else if name == "jpg"@ || name == "jpeg"@ || name == "jfif"@ {
        Some(Format::Jpeg)
    } else {
        None
    }
}

/// Calls `ImageFormat::from_extension` and tells PNG and JPEG from every
/// other answer. The function looks the extension up, in lower case, in a
/// table; `format_named` states the lines of that table that give PNG and
/// JPEG.
#[verifier::external_body]
fn format_of_extension(extension: &str) -> (format: Option<Format>)
    ensures
        format == format_named(extension@),
{
    match image::ImageFormat::from_extension(extension) {
        Some(image::ImageFormat::Png) => Some(Format::Png),
        Some(image::ImageFormat::Jpeg) => Some(Format::Jpeg),
        _ => None,
    }
}

/// The cover images that lie beside metadata files have formats: the
/// companion of a metadata file with the extension `png` is taken for PNG,
/// and the one with the extension `jpg` for JPEG.
pub proof fn companion_images_have_formats(path: Seq<char>)
    requires
        has_suffix(file_name(path), metadata_suffix()),
        file_name(path).len() > metadata_suffix().len(),
    ensures
        format_named(extension_of(companion_text(path, "png"@))) == Some(Format::Png),
        format_named(extension_of(companion_text(path, "jpg"@))) == Some(Format::Jpeg),
{
    reveal_strlit("png");
    reveal_strlit("jpg");
    reveal_strlit("apng");
    reveal_strlit("jpeg");
    reveal_strlit("jfif");
    let stem = metadata_stem(path);
    companion_replaces_the_compound_extension(path, "png"@);
    companion_replaces_the_compound_extension(path, "jpg"@);
    lemma_stem_end_of_dotted(stem, "png"@);
    lemma_stem_end_of_dotted(stem, "jpg"@);
    let png = stem + seq!['.'] + "png"@;
    let jpg = stem + seq!['.'] + "jpg"@;
    assert(extension_of(png) =~= "png"@);
    assert(extension_of(jpg) =~= "jpg"@);
    assert(lowered("png"@) =~= "png"@);
    assert(lowered("jpg"@) =~= "jpg"@);
    assert("jpg"@[0] != "png"@[0]);
    assert("jpg"@.len() != "apng"@.len());
}

/// Tells the format of an image file from the extension of its name, as the
/// `image` crate does. Fails with `ImageError`, quoting the path, exactly
/// where the extension names neither PNG nor JPEG.
pub fn format_of_path(path: &str) -> (format: Result<Format, Error>)
    ensures
        match format {
            Ok(format) => format_named(extension_of(path@)) == Some(format),
            Err(error) => format_named(extension_of(path@)) is None && error.is_unknown_format(
                path@,
            ),
        },
{
    let chars = chars_of(path);
    let end = stem_end_of(&chars);
    let extension = if end < chars.len() {
        slice_text(path, end + 1, chars.len())
    } else {
        String::from_str("")
    };
    proof {
        reveal_strlit("");
        assert(extension@ =~= extension_of(path@));
    }
    match format_of_extension(extension.as_str()) {
        Some(format) => Ok(format),
        None => Err(Error::ImageError(ImageFault::UnknownFormat(String::from_str(path)))),
    }
}

/// Declares `image::DynamicImage` for use in proved code, as a value whose
/// pixels are known through `rgb_of` only.
#[verifier::external_type_specification]
#[verifier::external_body]
pub struct ExDynamicImage(image::DynamicImage);

/// The pixels of a decoded image, each as red, green and blue bytes.
pub uninterp spec fn rgb_of(image: image::DynamicImage) -> RasterView;

/// The image that the `image` crate reads from the PNG file content
/// `bytes`, with its pixels as red, green and blue bytes; `None` where it
/// reports an error.
pub uninterp spec fn decoded_png(bytes: Seq<u8>) -> Option<RasterView>;

/// The file content that the `image` crate writes for `image` in the format
/// `format`; `None` where it reports an error.
pub uninterp spec fn encoded(image: RasterView, format: Format) -> Option<Seq<u8>>;

/// Calls `image::load_from_memory_with_format`. For PNG the contract gives
/// the outcome its name, `decoded_png`: an error of the crate is `None`, and
/// an image is known by its pixels. For JPEG nothing is said of the outcome:
/// the decoder chooses its arithmetic by the processor that it runs on.
#[verifier::external_body]
fn decode(bytes: &Vec<u8>, format: Format) -> (image: Result<
    image::DynamicImage,
    image::ImageError,
>)
    ensures
        format is Png ==> match image {
            Ok(image) => decoded_png(bytes@) == Some(rgb_of(image)),
            Err(_) => decoded_png(bytes@) is None,
        },
{
    let kind = match format {
        Format::Png => image::ImageFormat::Png,
        Format::Jpeg => image::ImageFormat::Jpeg,
    };
    image::load_from_memory_with_format(bytes, kind)
}

/// Calls `DynamicImage::into_rgb8` and takes the buffer apart with
/// `ImageBuffer::into_raw`: the size and the bytes of the image.
#[verifier::external_body]
fn into_rgb(image: image::DynamicImage) -> (pixels: Raster)
    ensures
        pixels@ == rgb_of(image),
{
    let rgb = image.into_rgb8();
    Raster { width: rgb.width(), height: rgb.height(), pixels: rgb.into_raw() }
}

/// Calls `image::imageops::resize` with `FilterType::CatmullRom` on the
/// buffer that `ImageBuffer::from_raw` makes of `source`. `from_raw` refuses
/// only a buffer that is too short for the size, which the first
/// precondition rules out: so there is a result. It has exactly the asked
/// width and height and three bytes for each pixel. Of the pixels nothing is
/// said: the filter computes them in floating point. The other preconditions
/// keep the two buffers that `resize` allocates within what a vector can
/// hold.
#[verifier::external_body]
fn resample(source: Raster, width: u32, height: u32) -> (scaled: Option<Raster>)
    requires
        source.wf(),
        16 * source.width * height <= isize::MAX,
        3 * width * height <= isize::MAX,
    ensures
        scaled is Some,
        scaled matches Some(scaled) ==> scaled.wf() && scaled.width == width && scaled.height
            == height,
{
    let buffer = image::RgbImage::from_raw(source.width, source.height, source.pixels)?;
    let filter = image::imageops::FilterType::CatmullRom;
    let scaled = image::imageops::resize(&buffer, width, height, filter);
    Some(Raster { width: scaled.width(), height: scaled.height(), pixels: scaled.into_raw() })
}

/// Calls `image::write_buffer_with_format` on a buffer in memory, with the
/// color type of three bytes for each pixel. The contract gives the outcome
/// its name, `encoded`. The encoders panic on a buffer of another length
/// than the size asks for: the precondition rules that out.
#[verifier::external_body]
fn encode(image: &Raster, format: Format) -> (bytes: Result<Vec<u8>, image::ImageError>)
    requires
        image.wf(),
        image.width > 0,
        image.height > 0,
    ensures
        match bytes {
            Ok(bytes) => encoded(image@, format) == Some(bytes@),
            Err(_) => encoded(image@, format) is None,
        },
{
    let kind = match format {
        Format::Png => image::ImageFormat::Png,
        Format::Jpeg => image::ImageFormat::Jpeg,
    };
    let color = image::ExtendedColorType::Rgb8;
    let mut out = std::io::Cursor::new(Vec::new());
    let (width, height) = (image.width, image.height);
    image::write_buffer_with_format(&mut out, &image.pixels, width, height, color, kind)?;
    Ok(out.into_inner())
}

/// The color of the padding.
pub open spec fn black() -> Color {
    (0u8, 0u8, 0u8)
}

/// True when an image of `width` pixels in a row can be resampled to the
/// height of `layout` and padded to a square of side `target` in buffers
/// that a vector can hold. Resampling takes a buffer of sixteen bytes for
/// each pixel of a row of the image and each row of the scaled image; the
/// square takes three bytes for each of its pixels.
pub open spec fn fits(width: int, layout: Layout, target: int) -> bool {
    16 * width * layout.height <= isize::MAX && 3 * target * target <= isize::MAX
}

/// True when `resized` is what framing the scaled image `scaled` comes to:
/// `scaled` gets black around it, as much on each side as `layout` says, and
/// the canvas is written in `format`.
///
/// A canvas without pixels gives `Empty`. Every other canvas is one only,
/// and the outcome is what the `image` crate makes of writing it: the
/// content of the file, or `Codec` where it reports an error.
pub open spec fn is_framed(
    scaled: RasterView,
    layout: Layout,
    format: Format,
    resized: Result<Vec<u8>, Error>,
) -> bool {
    if scaled.width + layout.pad_left + layout.pad_right == 0 || scaled.height + layout.pad_top
        + layout.pad_bottom == 0 {
        resized matches Err(Error::ImageError(ImageFault::Empty))
    } else {
        exists|canvas: RasterView| #[trigger]
            is_padded(
                canvas,
                scaled,
                layout.pad_left as int,
                layout.pad_right as int,
                layout.pad_top as int,
                layout.pad_bottom as int,
                black(),
            ) && match encoded(canvas, format) {
                Some(bytes) => resized matches Ok(content) && content@ == bytes,
                None => resized matches Err(Error::ImageError(ImageFault::Codec(_))),
            }
    }
}

/// True when `resized` is what making the square cover of side `target` of
/// `image` comes to.
///
/// An image that does not hold three bytes for each pixel gives `Buffer`, an
/// image or a square without pixels `Empty`, and an image whose buffers no
/// vector can hold `TooLarge`. Every other image is resampled to the size
/// that its layout gives, and the outcome is that of framing the scaled
/// image; see `is_framed`. Of the scaled image only the size is known.
pub open spec fn is_cover_of(
    image: RasterView,
    format: Format,
    target: int,
    resized: Result<Vec<u8>, Error>,
) -> bool {
    let layout = layout_of(image.width as int, image.height as int, target);
    if !image.wf() {
        resized matches Err(Error::ImageError(ImageFault::Buffer))
    } else if image.width == 0 || image.height == 0 || target == 0 {
        resized matches Err(Error::ImageError(ImageFault::Empty))
    } else if !fits(image.width as int, layout, target) {
        resized matches Err(Error::ImageError(ImageFault::TooLarge))
    } else {
        exists|scaled: RasterView|
            scaled.wf() && scaled.width == layout.width && scaled.height == layout.height
                && #[trigger] is_framed(scaled, layout, format, resized)
    }
}

/// Each byte of an image is a part of one of its pixels.
proof fn lemma_byte_is_sample(width: int, height: int, at: int) -> (place: (int, int, int))
    requires
        0 <= width,
        0 <= height,
        0 <= at < 3 * width * height,
    ensures
        0 <= place.0 < width,
        0 <= place.1 < height,
        0 <= place.2 < 3,
        (place.1 * width + place.0) * 3 + place.2 == at,
{
    let cell = at / 3;
    let c = at % 3;
    assert(width > 0) by (nonlinear_arith)
        requires
            0 <= width,
            0 < 3 * width * height,
    ;
    let y = cell / width;
    let x = cell % width;
    lemma_fundamental_div_mod(cell, width);
    lemma_mod_bound(cell, width);
    assert(cell < width * height) by (nonlinear_arith)
        requires
            cell * 3 <= at,
            at < 3 * width * height,
    ;
    assert(0 <= y) by (nonlinear_arith)
        requires
            y == cell / width,
            0 <= cell,
            0 < width,
    ;
    assert(y < height) by (nonlinear_arith)
        requires
            cell == width * y + x,
            0 <= x,
            cell < width * height,
            0 < width,
    ;
    assert(y * width == width * y) by (nonlinear_arith);
    (x, y, c)
}

/// Padding gives one result only: two canvases that are the same image with
/// the same padding in the same color are equal.
pub proof fn padding_is_unique(
    first: RasterView,
    second: RasterView,
    inner: RasterView,
    pad_left: int,
    pad_right: int,
    pad_top: int,
    pad_bottom: int,
    color: Color,
)
    requires
        is_padded(first, inner, pad_left, pad_right, pad_top, pad_bottom, color),
        is_padded(second, inner, pad_left, pad_right, pad_top, pad_bottom, color),
    ensures
        first == second,
{
    assert(first.pixels.len() == second.pixels.len());
    assert forall|at: int| 0 <= at < first.pixels.len() implies first.pixels[at]
        == second.pixels[at] by {
        let (x, y, c) = lemma_byte_is_sample(first.width as int, first.height as int, at);
        assert(first.offset(x, y, c) == at);
        assert(second.offset(x, y, c) == at);
        assert(first.pixels[first.offset(x, y, c)] == padded_sample(
            inner,
            pad_left,
            pad_top,
            color,
            x,
            y,
            c,
        ));
        assert(second.pixels[second.offset(x, y, c)] == padded_sample(
            inner,
            pad_left,
            pad_top,
            color,
            x,
            y,
            c,
        ));
    }
    assert(first.pixels =~= second.pixels);
}

/// Framing is decided by the canvas: where `canvas` is the scaled image with
/// its padding and has pixels, the outcome is what encoding it gives.
pub proof fn lemma_framed_by_canvas(
    scaled: RasterView,
    layout: Layout,
    format: Format,
    canvas: RasterView,
    resized: Result<Vec<u8>, Error>,
)
    requires
        is_padded(
            canvas,
            scaled,
            layout.pad_left as int,
            layout.pad_right as int,
            layout.pad_top as int,
            layout.pad_bottom as int,
            black(),
        ),
        canvas.width > 0,
        canvas.height > 0,
        is_framed(scaled, layout, format, resized),
    ensures
        match encoded(canvas, format) {
            Some(bytes) => resized matches Ok(content) && content@ == bytes,
            None => resized matches Err(Error::ImageError(ImageFault::Codec(_))),
        },
{
    let other = choose|other: RasterView| #[trigger]
        is_padded(
            other,
            scaled,
            layout.pad_left as int,
            layout.pad_right as int,
            layout.pad_top as int,
            layout.pad_bottom as int,
            black(),
        ) && match encoded(other, format) {
            Some(bytes) => resized matches Ok(content) && content@ == bytes,
            None => resized matches Err(Error::ImageError(ImageFault::Codec(_))),
        };
    padding_is_unique(
        canvas,
        other,
        scaled,
        layout.pad_left as int,
        layout.pad_right as int,
        layout.pad_top as int,
        layout.pad_bottom as int,
        black(),
    );
}

/// Framing a scaled image again gives the same file: whether there is one,
/// and its content, depend on the scaled image, the padding and the format
/// only.
pub proof fn framing_is_unique(
    scaled: RasterView,
    layout: Layout,
    format: Format,
    first: Result<Vec<u8>, Error>,
    second: Result<Vec<u8>, Error>,
)
    requires
        is_framed(scaled, layout, format, first),
        is_framed(scaled, layout, format, second),
    ensures
        first is Ok <==> second is Ok,
        first matches Ok(a) ==> second matches Ok(b) && a@ == b@,
{
    if !(scaled.width + layout.pad_left + layout.pad_right == 0 || scaled.height + layout.pad_top
        + layout.pad_bottom == 0) {
        let canvas = choose|canvas: RasterView| #[trigger]
            is_padded(
                canvas,
                scaled,
                layout.pad_left as int,
                layout.pad_right as int,
                layout.pad_top as int,
                layout.pad_bottom as int,
                black(),
            ) && match encoded(canvas, format) {
                Some(bytes) => first matches Ok(content) && content@ == bytes,
                None => first matches Err(Error::ImageError(ImageFault::Codec(_))),
            };
        lemma_framed_by_canvas(scaled, layout, format, canvas, second);
    }
}

/// A cover is square: where making the cover of an image with a width and a
/// height succeeds, the file holds a canvas whose width and height are both
/// the side length.
pub proof fn cover_is_square(
    image: RasterView,
    format: Format,
    target: int,
    resized: Result<Vec<u8>, Error>,
)
    requires
        0 <= target <= u32::MAX,
        image.width <= u32::MAX,
        image.height <= u32::MAX,
        is_cover_of(image, format, target, resized),
        resized is Ok,
    ensures
        exists|canvas: RasterView|
            canvas.width == target && canvas.height == target && canvas.wf()
                && #[trigger] encoded(canvas, format) == Some(resized->Ok_0@),
{
    let layout = layout_of(image.width as int, image.height as int, target);
    layout_fills_the_square(image.width as int, image.height as int, target);
    let scaled = choose|scaled: RasterView|
        scaled.wf() && scaled.width == layout.width && scaled.height == layout.height
            && #[trigger] is_framed(scaled, layout, format, resized);
    let canvas = choose|canvas: RasterView| #[trigger]
        is_padded(
            canvas,
            scaled,
            layout.pad_left as int,
            layout.pad_right as int,
            layout.pad_top as int,
            layout.pad_bottom as int,
            black(),
        ) && match encoded(canvas, format) {
            Some(bytes) => resized matches Ok(content) && content@ == bytes,
            None => resized matches Err(Error::ImageError(ImageFault::Codec(_))),
        };
    assert(encoded(canvas, format) == Some(resized->Ok_0@));
}

/// A cover is made wherever the encoder plays along: where the image holds
/// its pixels, has a width and a height, and fits, and the `image` crate can
/// write every canvas of the side length in `format`, the outcome is a file.
pub proof fn cover_is_made(
    image: RasterView,
    format: Format,
    target: int,
    resized: Result<Vec<u8>, Error>,
)
    requires
        0 < target <= u32::MAX,
        image.wf(),
        0 < image.width <= u32::MAX,
        0 < image.height <= u32::MAX,
        fits(
            image.width as int,
            layout_of(image.width as int, image.height as int, target),
            target,
        ),
        forall|canvas: RasterView|
            canvas.width == target && canvas.height == target ==> #[trigger] encoded(
                canvas,
                format,
            ) is Some,
        is_cover_of(image, format, target, resized),
    ensures
        resized is Ok,
{
    let layout = layout_of(image.width as int, image.height as int, target);
    layout_fills_the_square(image.width as int, image.height as int, target);
    let scaled = choose|scaled: RasterView|
        scaled.wf() && scaled.width == layout.width && scaled.height == layout.height
            && #[trigger] is_framed(scaled, layout, format, resized);
    let canvas = choose|canvas: RasterView| #[trigger]
        is_padded(
            canvas,
            scaled,
            layout.pad_left as int,
            layout.pad_right as int,
            layout.pad_top as int,
            layout.pad_bottom as int,
            black(),
        ) && match encoded(canvas, format) {
            Some(bytes) => resized matches Ok(content) && content@ == bytes,
            None => resized matches Err(Error::ImageError(ImageFault::Codec(_))),
        };
    assert(encoded(canvas, format) is Some);
}

/// Tells whether `image` holds three bytes for each of its pixels, and no more.
pub fn holds_every_pixel(image: &Raster) -> (yes: bool)
    ensures
        yes == image.wf(),
{
    let width = image.width as u128;
    let height = image.height as u128;
    let held = image.pixels.len() as u128;
    proof {
        assert(3 * width * height <= 3 * 0xffff_ffff * 0xffff_ffff) by (nonlinear_arith)
            requires
                width <= 0xffff_ffff,
                height <= 0xffff_ffff,
        ;
        assert(3 * width * height == 3 * (image.width as nat) * (image.height as nat))
            by (nonlinear_arith)
            requires
                width == image.width,
                height == image.height,
        ;
    }
    held == 3 * width * height
}

/// Tells whether an image of `width` pixels in a row can be resampled to
/// `scaled_height` rows and padded to a square of side `target_size`.
fn check_fits(width: u32, scaled_height: u32, target_size: u32) -> (yes: bool)
    ensures
        yes == (16 * width * scaled_height <= isize::MAX && 3 * target_size * target_size
            <= isize::MAX),
{
    let w = width as u128;
    let h = scaled_height as u128;
    let t = target_size as u128;
    let limit = isize::MAX as u128;
    proof {
        assert(16 * w * h <= 16 * 0xffff_ffff * 0xffff_ffff) by (nonlinear_arith)
            requires
                w <= 0xffff_ffff,
                h <= 0xffff_ffff,
        ;
        assert(3 * t * t <= 3 * 0xffff_ffff * 0xffff_ffff) by (nonlinear_arith)
            requires
                t <= 0xffff_ffff,
        ;
    }
    16 * w * h <= limit && 3 * t * t <= limit
}

/// Frames a scaled image: puts black around it, as much on each side as
/// `layout` says, and writes the canvas in the format `format`.
///
/// The outcome is `Empty` exactly where the canvas has no pixels. Else it is
/// the content of the file that the `image` crate writes for the canvas, or
/// `Codec` exactly where the crate reports an error.
pub fn frame_cover(scaled: &Raster, layout: Layout, format: Format) -> (resized: Result<
    Vec<u8>,
    Error,
>)
    requires
        scaled.wf(),
        scaled.width + layout.pad_left + layout.pad_right <= u32::MAX,
        scaled.height + layout.pad_top + layout.pad_bottom <= u32::MAX,
    ensures
        is_framed(scaled@, layout, format, resized),
{
    let canvas = pad_image(
        scaled,
        layout.pad_left,
        layout.pad_right,
        layout.pad_top,
        layout.pad_bottom,
        (0, 0, 0),
    );
    assert(is_padded(
        canvas@,
        scaled@,
        layout.pad_left as int,
        layout.pad_right as int,
        layout.pad_top as int,
        layout.pad_bottom as int,
        black(),
    ));
    if canvas.width == 0 || canvas.height == 0 {
        return Err(Error::ImageError(ImageFault::Empty));
    }
    match encode(&canvas, format) {
        Ok(bytes) => Ok(bytes),
        Err(fault) => Err(Error::ImageError(ImageFault::Codec(fault))),
    }
}

/// Makes the square cover of side `target_size` of `image`, and returns the
/// content of its file in the format `format`.
///
/// The image is resampled so that its longer side has the side length of the
/// square, padded with black to the square, and encoded. The outcome is
/// `Ok` exactly where the image holds its pixels, the image and the square
/// have pixels, the buffers fit into vectors, and the `image` crate can
/// write the square.
pub fn square_cover(image: Raster, format: Format, target_size: u32) -> (resized: Result<
    Vec<u8>,
    Error,
>)
    ensures
        is_cover_of(image@, format, target_size as int, resized),
{
    if !holds_every_pixel(&image) {
        return Err(Error::ImageError(ImageFault::Buffer));
    }
    if image.width == 0 || image.height == 0 || target_size == 0 {
        return Err(Error::ImageError(ImageFault::Empty));
    }
    let layout = match fill_layout(image.width, image.height, target_size) {
        Some(layout) => layout,
        None => unreached(),
    };
    if !check_fits(image.width, layout.height, target_size) {
        return Err(Error::ImageError(ImageFault::TooLarge));
    }
    proof {
        assert(3 * layout.width * layout.height <= 3 * target_size * target_size)
            by (nonlinear_arith)
            requires
                layout.width <= target_size,
                layout.height <= target_size,
        ;
    }
    let scaled = match resample(image, layout.width, layout.height) {
        Some(scaled) => scaled,
        None => unreached(),
    };
    frame_cover(&scaled, layout, format)
}

/// Makes the square cover of what decoding an image file gave: of the image,
/// as `square_cover` does, or the decoder's error as `Codec`.
pub fn cover_of_decoded(
    decoded: Result<Raster, image::ImageError>,
    format: Format,
    target_size: u32,
) -> (resized: Result<Vec<u8>, Error>)
    ensures
        match decoded {
            Ok(image) => is_cover_of(image@, format, target_size as int, resized),
            Err(fault) => resized == Err::<Vec<u8>, Error>(
                Error::ImageError(ImageFault::Codec(fault)),
            ),
        },
{
    match decoded {
        Ok(image) => square_cover(image, format, target_size),
        Err(fault) => Err(Error::ImageError(ImageFault::Codec(fault))),
    }
}

/// True when `resized` is what normalizing the image file content `source`
/// comes to.
///
/// Content that cannot be decoded gives `Codec`. Else the outcome is that of
/// making the square cover of the decoded image; see `is_cover_of`. For PNG
/// the decoded image is the one that `decoded_png` names. For JPEG it is
/// known only that there is one.
pub open spec fn is_normalized(
    source: Seq<u8>,
    format: Format,
    target: int,
    resized: Result<Vec<u8>, Error>,
) -> bool {
    match format {
        Format::Png => match decoded_png(source) {
            None => resized matches Err(Error::ImageError(ImageFault::Codec(_))),
            Some(image) => is_cover_of(image, format, target, resized),
        },
        Format::Jpeg => resized matches Err(Error::ImageError(ImageFault::Codec(_)))
            || exists|image: RasterView| #[trigger] is_cover_of(image, format, target, resized),
    }
}

/// Makes the square cover of side `target_size` of an image file's content
/// `source`, and returns the content of the new file, in the same format.
///
/// The content is decoded, and the square cover of what comes of it is
/// made; see `cover_of_decoded`.
pub fn resize_image_to_fill(source: &Vec<u8>, format: Format, target_size: u32) -> (resized:
    Result<Vec<u8>, Error>)
    ensures
        is_normalized(source@, format, target_size as int, resized),
{
    let decoded = match decode(source, format) {
        Ok(image) => Ok(into_rgb(image)),
        Err(fault) => Err(fault),
    };
    cover_of_decoded(decoded, format, target_size)
}

} // verus!
