//! Printing: the `lp` command line for a job, and the integer decisions of
//! fitting an image to the label (where to crop, which format to send).
use crate::config::{text_of, Config};
use crate::text::{chars_of, decimal_text, remove_all, remove_occurrences, render_decimal, extend_chars, push_str, string_from_chars};
use vstd::prelude::*;

verus! {

/// The texts of a list of strings.
pub open spec fn texts(v: Seq<String>) -> Seq<Seq<char>> {
    v.map_values(|s: String| s@)
}

/// Appends a string to the argument list.
fn push_arg(args: &mut Vec<String>, s: String)
    ensures
        texts(final(args)@) == texts(old(args)@).push(s@),
{
    let ghost before = args@;
    args.push(s);
    assert(texts(args@) =~= texts(before).push(s@));
}

/// Appends the text of a literal to the argument list.
fn push_literal(args: &mut Vec<String>, s: &str)
    ensures
        texts(final(args)@) == texts(old(args)@).push(s@),
{
    push_arg(args, String::from_str(s));
}

/// The `media` option for a label of the given size, each dimension written
/// with two decimals and with any `.00` removed (`media=Custom.4x6in`,
/// `media=Custom.4.50x6in`).
pub open spec fn media_option(width_two_decimals: Seq<char>, height_two_decimals: Seq<char>) -> Seq<
    char,
> {
    "media=Custom."@ + remove_all(width_two_decimals, ".00"@) + "x"@ + remove_all(
        height_two_decimals,
        ".00"@,
    ) + "in"@
}

/// The `lp` command line: the program, the CUPS server if one is set, the
/// printer, the number of copies, the label size as media, printing at
/// natural size at 300 pixels per inch with no margins and at most one page,
/// and the file to print.
pub open spec fn lp_arguments(
    printer_name: Seq<char>,
    copies: usize,
    server_host: Option<Seq<char>>,
    width_two_decimals: Seq<char>,
    height_two_decimals: Seq<char>,
    temp_path: Seq<char>,
) -> Seq<Seq<char>> {
    seq!["lp"@] + match server_host {
        Some(h) => seq!["-h"@, h],
        None => Seq::empty(),
    } + seq![
        "-d"@,
        printer_name,
        "-n"@,
        decimal_text(copies as nat),
        "-o"@,
        media_option(width_two_decimals, height_two_decimals),
        "-o"@,
        "scaling=100"@,
        "-o"@,
        "ppi=300"@,
        "-o"@,
        "page-left=0"@,
        "-o"@,
        "page-right=0"@,
        "-o"@,
        "page-top=0"@,
        "-o"@,
        "page-bottom=0"@,
        "-o"@,
        "page-ranges=1"@,
        temp_path,
    ]
}

/// The `lp` command line that prints `copies` copies of the file at
/// `temp_path` on the named printer, at the configured label size. The image
/// format plays no part in it.
pub fn build_lp_args(
    printer_name: &str,
    copies: usize,
    image_format: &str,
    config: &Config,
    temp_path: &str,
) -> (r: Vec<String>)
    ensures
        texts(r@) == lp_arguments(
            printer_name@,
            copies,
            text_of(config.cups_server_host),
            config.label.width_two_decimals@,
            config.label.height_two_decimals@,
            temp_path@,
        ),
{
    let mut args: Vec<String> = Vec::new();
    assert(texts(args@) =~= Seq::<Seq<char>>::empty());
    push_literal(&mut args, "lp");
    match &config.cups_server_host {
        Some(host) => {
            push_literal(&mut args, "-h");
            push_arg(&mut args, host.clone());
        },
        None => {},
    }
    push_literal(&mut args, "-d");
    push_literal(&mut args, printer_name);
    push_literal(&mut args, "-n");
    let count = render_decimal(copies as u128);
    push_arg(&mut args, string_from_chars(count.as_slice()));

    let width = chars_of(config.label.width_two_decimals.as_str());
    let height = chars_of(config.label.height_two_decimals.as_str());
    let zeros = chars_of(".00");
    let width_short = remove_occurrences(width.as_slice(), zeros.as_slice());
    let height_short = remove_occurrences(height.as_slice(), zeros.as_slice());
    let mut media: Vec<char> = Vec::new();
    push_str(&mut media, "media=Custom.");
    extend_chars(&mut media, width_short.as_slice());
    push_str(&mut media, "x");
    extend_chars(&mut media, height_short.as_slice());
    push_str(&mut media, "in");
    assert(media@ =~= media_option(
        config.label.width_two_decimals@,
        config.label.height_two_decimals@,
    ));
    push_literal(&mut args, "-o");
    push_arg(&mut args, string_from_chars(media.as_slice()));
    push_literal(&mut args, "-o");
    push_literal(&mut args, "scaling=100");
    push_literal(&mut args, "-o");
    push_literal(&mut args, "ppi=300");
    push_literal(&mut args, "-o");
    push_literal(&mut args, "page-left=0");
    push_literal(&mut args, "-o");
    push_literal(&mut args, "page-right=0");
    push_literal(&mut args, "-o");
    push_literal(&mut args, "page-top=0");
    push_literal(&mut args, "-o");
    push_literal(&mut args, "page-bottom=0");
    push_literal(&mut args, "-o");
    push_literal(&mut args, "page-ranges=1");
    push_literal(&mut args, temp_path);
    let _ = image_format;
    assert(texts(args@) =~= lp_arguments(
        printer_name@,
        copies,
        text_of(config.cups_server_host),
        config.label.width_two_decimals@,
        config.label.height_two_decimals@,
        temp_path@,
    ));
    args
}

/// The offset from which a `target`-long span is cut out of the middle of a
/// `size`-long one: half the excess, rounded down; zero when there is none.
pub open spec fn centre_offset(size: u32, target: u32) -> u32 {
    if size >= target {
        ((size - target) / 2) as u32
    } else {
        0
    }
}

/// Where to start cutting a `target`-long span out of the middle of a
/// `size`-long one (`size.saturating_sub(target) / 2`).
pub fn crop_offset(size: u32, target: u32) -> (r: u32)
    ensures
        r == centre_offset(size, target),
        size >= target ==> r + target <= size && size - target - 2 * r <= 1,
{
    if size >= target {
        (size - target) / 2
    } else {
        0
    }
}

/// The format in which a fitted image is sent to the printer.
#[derive(Clone, Copy, Debug, PartialEq, Eq, Structural)]
pub enum OutputFormat {
    Png,
    Jpeg,
}

/// What `image::ImageReader::new(Cursor::new(bytes)).with_guessed_format()`
/// then `into_dimensions()` give: the width and height that the image's
/// header states; `None` where the format is not recognised or the header
/// does not read.
pub uninterp spec fn image_dimensions(bytes: Seq<u8>) -> Option<(u32, u32)>;

/// What decoding `bytes` with `image::load_from_memory` and then
/// `resize(cover_w, cover_h, FilterType::Lanczos3)` give: the resized
/// image's width, height, whether its colour type has an alpha channel
/// (`ColorType::has_alpha`), and its pixels as `to_rgba8()` and as
/// `to_rgb8()` lay them out; `None` where decoding fails.
pub uninterp spec fn resized_pixels(bytes: Seq<u8>, cover_w: u32, cover_h: u32) -> Option<
    (u32, u32, bool, Seq<u8>, Seq<u8>),
>;

/// What decoding `bytes` with `image::load_from_memory` gives when the image
/// is 8-bit RGB (`DynamicImage::as_rgb8`), resized to `cover_w` x `cover_h`
/// with `imageops::resize(.., FilterType::Lanczos3)`: the resized pixels as
/// `RgbImage::into_raw` lays them out; `None` where decoding fails or the
/// image is not 8-bit RGB.
pub uninterp spec fn rgb8_resized_pixels(bytes: Seq<u8>, cover_w: u32, cover_h: u32) -> Option<
    Seq<u8>,
>;

/// What encoding as PNG (`write_to(.., ImageFormat::Png)`) the `w` x `h`
/// area at `(x, y)` (`imageops::crop`) of the `width` x `height` RGBA8
/// image with these pixels gives (`RgbaImage::from_raw`); `None` where the
/// pixels do not fit the size or encoding fails.
pub uninterp spec fn png_of_crop(
    rgba: Seq<u8>,
    width: u32,
    height: u32,
    x: u32,
    y: u32,
    w: u32,
    h: u32,
) -> Option<Seq<u8>>;

/// What encoding as JPEG (`write_to(.., ImageFormat::Jpeg)`) the `w` x `h`
/// area at `(x, y)` (`imageops::crop`) of the `width` x `height` RGB8 image
/// with these pixels gives (`RgbImage::from_raw`); `None` where the pixels
/// do not fit the size or encoding fails.
pub uninterp spec fn jpeg_of_crop(
    rgb: Seq<u8>,
    width: u32,
    height: u32,
    x: u32,
    y: u32,
    w: u32,
    h: u32,
) -> Option<Seq<u8>>;

/// Calls `image::ImageReader::new(Cursor::new(bytes)).with_guessed_format()`
/// and `into_dimensions()`. The contract claims only that the result is a
/// function of the bytes, named `image_dimensions`.
#[verifier::external_body]
fn read_dimensions(bytes: &[u8]) -> (r: Option<(u32, u32)>)
    ensures
        r == image_dimensions(bytes@),
{
    image::ImageReader::new(std::io::Cursor::new(bytes)).with_guessed_format().ok()?.into_dimensions().ok()
}

/// Calls `image::load_from_memory(bytes)` and `resize(cover_w, cover_h,
/// FilterType::Lanczos3)`, and gives the result's width, height,
/// `color().has_alpha()`, `to_rgba8()` and `to_rgb8()` pixels. The contract
/// claims only that the result is a function of its arguments, named
/// `resized_pixels`.
#[verifier::external_body]
fn resize_to_cover(bytes: &[u8], cover_w: u32, cover_h: u32) -> (r: Option<
    (u32, u32, bool, Vec<u8>, Vec<u8>),
>)
    ensures
        match r {
            Some((w, h, a, rgba, rgb)) => resized_pixels(bytes@, cover_w, cover_h) == Some(
                (w, h, a, rgba@, rgb@),
            ),
            None => resized_pixels(bytes@, cover_w, cover_h) is None,
        },
{
    let img = image::load_from_memory(bytes).ok()?;
    let resized = img.resize(cover_w, cover_h, image::imageops::FilterType::Lanczos3);
    let alpha = resized.color().has_alpha();
    Some((resized.width(), resized.height(), alpha, resized.to_rgba8().into_raw(), resized.to_rgb8().into_raw()))
}

/// Calls `image::load_from_memory(bytes)`, `as_rgb8()` and
/// `imageops::resize(.., cover_w, cover_h, FilterType::Lanczos3)`, and gives
/// the resized buffer's pixels. Being generic, `imageops::resize` is
/// compiled here for the RGB8 buffer, with this crate's optimisation.
/// The contract claims only that the result is a function of its
/// arguments, named `rgb8_resized_pixels`.
#[verifier::external_body]
fn resize_rgb8(bytes: &[u8], cover_w: u32, cover_h: u32) -> (r: Option<Vec<u8>>)
    ensures
        match r {
            Some(rgb) => rgb8_resized_pixels(bytes@, cover_w, cover_h) == Some(rgb@),
            None => rgb8_resized_pixels(bytes@, cover_w, cover_h) is None,
        },
{
    let img = image::load_from_memory(bytes).ok()?;
    let rgb = img.as_rgb8()?;
    Some(image::imageops::resize(rgb, cover_w, cover_h, image::imageops::FilterType::Lanczos3).into_raw())
}

/// Calls `RgbaImage::from_raw(width, height, rgba)`, `imageops::crop(..,
/// x, y, w, h)` and `write_to(.., ImageFormat::Png)`, and gives the bytes
/// written. The contract claims only that the result is a function of its
/// arguments, named `png_of_crop`.
#[verifier::external_body]
fn crop_encode_png(rgba: &[u8], width: u32, height: u32, x: u32, y: u32, w: u32, h: u32) -> (r:
    Option<Vec<u8>>)
    ensures
        match r {
            Some(out) => png_of_crop(rgba@, width, height, x, y, w, h) == Some(out@),
            None => png_of_crop(rgba@, width, height, x, y, w, h) is None,
        },
{
    let mut img = image::RgbaImage::from_raw(width, height, rgba.to_vec())?;
    let cropped = image::imageops::crop(&mut img, x, y, w, h).to_image();
    let mut out = Vec::new();
    cropped.write_to(&mut std::io::Cursor::new(&mut out), image::ImageFormat::Png).ok()?;
    Some(out)
}

/// Calls `RgbImage::from_raw(width, height, rgb)`, `imageops::crop(.., x,
/// y, w, h)` and `write_to(.., ImageFormat::Jpeg)`, and gives the bytes
/// written. The contract claims only that the result is a function of its
/// arguments, named `jpeg_of_crop`.
#[verifier::external_body]
fn crop_encode_jpeg(rgb: &[u8], width: u32, height: u32, x: u32, y: u32, w: u32, h: u32) -> (r:
    Option<Vec<u8>>)
    ensures
        match r {
            Some(out) => jpeg_of_crop(rgb@, width, height, x, y, w, h) == Some(out@),
            None => jpeg_of_crop(rgb@, width, height, x, y, w, h) is None,
        },
{
    let mut img = image::RgbImage::from_raw(width, height, rgb.to_vec())?;
    let cropped = image::imageops::crop(&mut img, x, y, w, h).to_image();
    let mut out = Vec::new();
    cropped.write_to(&mut std::io::Cursor::new(&mut out), image::ImageFormat::Jpeg).ok()?;
    Some(out)
}

/// The width and height that the image in `bytes` states; `None` if its
/// format is not recognised or its header does not read.
pub fn decoded_size(bytes: &[u8]) -> (r: Option<(u32, u32)>)
    ensures
        r == image_dimensions(bytes@),
{
    read_dimensions(bytes)
}

/// What cutting the `target_w` x `target_h` middle out of a resized
/// `rw` x `rh` image and encoding it gives: PNG of its RGBA8 pixels when
/// the image has an alpha channel (keeping transparency), JPEG of its RGB8
/// pixels otherwise; `None` where encoding fails.
pub open spec fn cropped_output(
    alpha: bool,
    rgba: Seq<u8>,
    rgb: Seq<u8>,
    rw: u32,
    rh: u32,
    target_w: u32,
    target_h: u32,
) -> Option<(Seq<u8>, OutputFormat)> {
    let x = centre_offset(rw, target_w);
    let y = centre_offset(rh, target_h);
    if alpha {
        match png_of_crop(rgba, rw, rh, x, y, target_w, target_h) {
            Some(out) => Some((out, OutputFormat::Png)),
            None => None,
        }
    } else {
        match jpeg_of_crop(rgb, rw, rh, x, y, target_w, target_h) {
            Some(out) => Some((out, OutputFormat::Jpeg)),
            None => None,
        }
    }
}

/// Whether a cover size is in exact proportion to the size an image states,
/// no side being zero. `DynamicImage::resize` then keeps the size asked for
/// and resizes the image's own pixel buffer to it with `imageops::resize`.
pub open spec fn in_proportion(size: Option<(u32, u32)>, cover_w: u32, cover_h: u32) -> bool {
    match size {
        Some((w, h)) => w >= 1 && h >= 1 && cover_w >= 1 && cover_h >= 1 && cover_w * h
            == cover_h * w,
        None => false,
    }
}

/// What fitting an image to the label gives: the image resized to cover
/// `cover_w` x `cover_h`, cut to exactly `target_w` x `target_h` from its
/// centre, and encoded as PNG if it has an alpha channel (keeping
/// transparency), as JPEG otherwise; `None` where decoding or encoding fails.
/// An 8-bit RGB image whose cover size is in proportion to it is resized
/// with `imageops::resize` on its RGB8 buffer, any other with
/// `DynamicImage::resize`.
pub open spec fn fitted_image(
    bytes: Seq<u8>,
    cover_w: u32,
    cover_h: u32,
    target_w: u32,
    target_h: u32,
) -> Option<(Seq<u8>, OutputFormat)> {
    let direct = if in_proportion(image_dimensions(bytes), cover_w, cover_h) {
        rgb8_resized_pixels(bytes, cover_w, cover_h)
    } else {
        None
    };
    match direct {
        Some(rgb) => cropped_output(false, Seq::empty(), rgb, cover_w, cover_h, target_w, target_h),
        None => match resized_pixels(bytes, cover_w, cover_h) {
            None => None,
            Some((rw, rh, alpha, rgba, rgb)) => cropped_output(
                alpha,
                rgba,
                rgb,
                rw,
                rh,
                target_w,
                target_h,
            ),
        },
    }
}

/// Whether a `target`-long span starting at `x` lies in the middle of a
/// `size`-long one: the space left before it is half the excess, rounded
/// down (the space after it is at most one more); a span longer than the
/// whole starts at zero.
pub open spec fn centred_in(size: u32, target: u32, x: u32) -> bool {
    if size >= target {
        2 * x + target <= size <= 2 * x + target + 1
    } else {
        x == 0
    }
}

/// Whatever the image and whether or not it has an alpha channel, what
/// fitting it to the label encodes is the `target_w` x `target_h` area of
/// the resized image that lies in its middle, both across and down: a PNG
/// is cut at the same centred place as a JPEG.
pub proof fn lemma_fitted_area_is_centred(
    bytes: Seq<u8>,
    cover_w: u32,
    cover_h: u32,
    target_w: u32,
    target_h: u32,
)
    ensures
        match fitted_image(bytes, cover_w, cover_h, target_w, target_h) {
            Some((out, OutputFormat::Png)) => exists|rgba: Seq<u8>, rw: u32, rh: u32, x: u32, y: u32|
                centred_in(rw, target_w, x) && centred_in(rh, target_h, y) && #[trigger] png_of_crop(
                    rgba,
                    rw,
                    rh,
                    x,
                    y,
                    target_w,
                    target_h,
                ) == Some(out),
            Some((out, OutputFormat::Jpeg)) => exists|rgb: Seq<u8>, rw: u32, rh: u32, x: u32, y: u32|
                centred_in(rw, target_w, x) && centred_in(rh, target_h, y) && #[trigger] jpeg_of_crop(
                    rgb,
                    rw,
                    rh,
                    x,
                    y,
                    target_w,
                    target_h,
                ) == Some(out),
            None => true,
        },
{
    let direct = if in_proportion(image_dimensions(bytes), cover_w, cover_h) {
        rgb8_resized_pixels(bytes, cover_w, cover_h)
    } else {
        None
    };
    match direct {
        Some(rgb) => {
            lemma_cropped_output_centred(false, Seq::empty(), rgb, cover_w, cover_h, target_w, target_h);
        },
        None => match resized_pixels(bytes, cover_w, cover_h) {
            None => {},
            Some((rw, rh, alpha, rgba, rgb)) => {
                lemma_cropped_output_centred(alpha, rgba, rgb, rw, rh, target_w, target_h);
            },
        },
    }
}

/// What `cropped_output` encodes is the centred area of the resized image.
proof fn lemma_cropped_output_centred(
    alpha: bool,
    rgba: Seq<u8>,
    rgb: Seq<u8>,
    rw: u32,
    rh: u32,
    target_w: u32,
    target_h: u32,
)
    ensures
        match cropped_output(alpha, rgba, rgb, rw, rh, target_w, target_h) {
            Some((out, OutputFormat::Png)) => exists|a: Seq<u8>, w: u32, h: u32, x: u32, y: u32|
                centred_in(w, target_w, x) && centred_in(h, target_h, y) && #[trigger] png_of_crop(
                    a,
                    w,
                    h,
                    x,
                    y,
                    target_w,
                    target_h,
                ) == Some(out),
            Some((out, OutputFormat::Jpeg)) => exists|a: Seq<u8>, w: u32, h: u32, x: u32, y: u32|
                centred_in(w, target_w, x) && centred_in(h, target_h, y) && #[trigger] jpeg_of_crop(
                    a,
                    w,
                    h,
                    x,
                    y,
                    target_w,
                    target_h,
                ) == Some(out),
            None => true,
        },
{
    let x = centre_offset(rw, target_w);
    let y = centre_offset(rh, target_h);
    assert(centred_in(rw, target_w, x));
    assert(centred_in(rh, target_h, y));
    if alpha {
        if let Some(out) = png_of_crop(rgba, rw, rh, x, y, target_w, target_h) {
            assert(png_of_crop(rgba, rw, rh, x, y, target_w, target_h) == Some(out));
        }
    } else {
        if let Some(out) = jpeg_of_crop(rgb, rw, rh, x, y, target_w, target_h) {
            assert(jpeg_of_crop(rgb, rw, rh, x, y, target_w, target_h) == Some(out));
        }
    }
}

/// Cuts the `target_w` x `target_h` middle out of a resized `rw` x `rh`
/// image and encodes it: as PNG from its RGBA8 pixels when it has an alpha
/// channel, as JPEG from its RGB8 pixels otherwise.
fn crop_and_encode(
    alpha: bool,
    rgba: &[u8],
    rgb: &[u8],
    rw: u32,
    rh: u32,
    target_w: u32,
    target_h: u32,
) -> (r: Option<(Vec<u8>, OutputFormat)>)
    ensures
        match r {
            Some((out, f)) => cropped_output(alpha, rgba@, rgb@, rw, rh, target_w, target_h)
                == Some((out@, f)),
            None => cropped_output(alpha, rgba@, rgb@, rw, rh, target_w, target_h) is None,
        },
{
    let x = crop_offset(rw, target_w);
    let y = crop_offset(rh, target_h);
    if alpha {
        match crop_encode_png(rgba, rw, rh, x, y, target_w, target_h) {
            Some(out) => Some((out, OutputFormat::Png)),
            None => None,
        }
    } else {
        match crop_encode_jpeg(rgb, rw, rh, x, y, target_w, target_h) {
            Some(out) => Some((out, OutputFormat::Jpeg)),
            None => None,
        }
    }
}

/// The product of two `u32`s, which always fits in a `u64`.
fn wide_product(a: u32, b: u32) -> (r: u64)
    ensures
        r == a * b,
{
    let (x, y) = (a as u64, b as u64);
    assert(x * y <= 0xffff_ffffu64 * 0xffff_ffffu64) by (nonlinear_arith)
        requires
            x <= 0xffff_ffffu64,
            y <= 0xffff_ffffu64,
    ;
    x * y
}

/// Fits an image to the label: resizes it to cover `cover_w` x `cover_h`,
/// cuts the `target_w` x `target_h` middle out of it, and encodes it as PNG
/// when it has an alpha channel, as JPEG otherwise. `None` when the bytes
/// are not an image or encoding fails.
pub fn fit_to_label(image_bytes: &[u8], cover_w: u32, cover_h: u32, target_w: u32, target_h: u32) -> (r:
    Option<(Vec<u8>, OutputFormat)>)
    ensures
        match r {
            Some((out, f)) => fitted_image(image_bytes@, cover_w, cover_h, target_w, target_h)
                == Some((out@, f)),
            None => fitted_image(image_bytes@, cover_w, cover_h, target_w, target_h) is None,
        },
{
    let proportional = match read_dimensions(image_bytes) {
        Some((w, h)) => w >= 1 && h >= 1 && cover_w >= 1 && cover_h >= 1 && wide_product(
            cover_w,
            h,
        ) == wide_product(cover_h, w),
        None => false,
    };
    if proportional {
        match resize_rgb8(image_bytes, cover_w, cover_h) {
            Some(rgb) => {
                let none: [u8; 0] = [];
                return crop_and_encode(false, &none, rgb.as_slice(), cover_w, cover_h, target_w, target_h);
            },
            None => {},
        }
    }
    match resize_to_cover(image_bytes, cover_w, cover_h) {
        Some((rw, rh, alpha, rgba, rgb)) => crop_and_encode(
            alpha,
            rgba.as_slice(),
            rgb.as_slice(),
            rw,
            rh,
            target_w,
            target_h,
        ),
        None => None,
    }
}

/// The reply after the printer took a job, or the error when it refused
/// it: the printer's standard output on success; otherwise the exit code
/// (`-1` when there is none) and its standard error.
pub open spec fn printer_outcome(
    success: bool,
    exit_code: Option<i32>,
    stdout: Seq<char>,
    stderr: Seq<char>,
) -> Result<Seq<char>, Seq<char>> {
    if success {
        Ok(stdout)
    } else {
        let code: int = match exit_code {
            Some(c) => c as int,
            None => -1,
        };
        Err("CUPS printing failed (code "@ + signed_decimal_text(code) + "): "@ + stderr)
    }
}

/// The decimal representation of a signed integer, as `{}` formats it.
pub open spec fn signed_decimal_text(n: int) -> Seq<char> {
    if n < 0 {
        "-"@ + decimal_text((-n) as nat)
    } else {
        decimal_text(n as nat)
    }
}

/// What a finished `lp` run means: its standard output when it succeeded,
/// else the error naming the exit code (`-1` when killed by a signal) and
/// its standard error.
pub fn printer_result(success: bool, exit_code: Option<i32>, stdout: &str, stderr: &str) -> (r:
    Result<String, String>)
    ensures
        match r {
            Ok(s) => printer_outcome(success, exit_code, stdout@, stderr@) == Ok::<
                Seq<char>,
                Seq<char>,
            >(s@),
            Err(e) => printer_outcome(success, exit_code, stdout@, stderr@) == Err::<
                Seq<char>,
                Seq<char>,
            >(e@),
        },
{
    if success {
        return Ok(String::from_str(stdout));
    }
    let code: i32 = match exit_code {
        Some(c) => c,
        None => -1,
    };
    let mut out: Vec<char> = Vec::new();
    push_str(&mut out, "CUPS printing failed (code ");
    if code < 0 {
        push_str(&mut out, "-");
        let magnitude: u128 = (-(code as i64)) as u128;
        let digits = render_decimal(magnitude);
        extend_chars(&mut out, digits.as_slice());
    } else {
        let digits = render_decimal(code as u128);
        extend_chars(&mut out, digits.as_slice());
    }
    push_str(&mut out, "): ");
    push_str(&mut out, stderr);
    assert(out@ =~= "CUPS printing failed (code "@ + signed_decimal_text(code as int) + "): "@
        + stderr@);
    Err(string_from_chars(out.as_slice()))
}

/// The name of a format, as the printing step and the file suffix use it.
pub fn format_name(format: OutputFormat) -> (r: String)
    ensures
        r@ == match format {
            OutputFormat::Png => "png"@,
            OutputFormat::Jpeg => "jpeg"@,
        },
{
    match format {
        OutputFormat::Png => String::from_str("png"),
        OutputFormat::Jpeg => String::from_str("jpeg"),
    }
}

} // verus!

verus! {

/// Every `lp` command line asks for a single page at natural size with no
/// margins, names the printer and the copy count, and ends with the file.
pub proof fn lemma_lp_single_page_at_natural_size(
    printer_name: Seq<char>,
    copies: usize,
    server_host: Option<Seq<char>>,
    width_two_decimals: Seq<char>,
    height_two_decimals: Seq<char>,
    temp_path: Seq<char>,
)
    ensures
        ({
            let args = lp_arguments(
                printer_name,
                copies,
                server_host,
                width_two_decimals,
                height_two_decimals,
                temp_path,
            );
            &&& args[0] == "lp"@
            &&& args.last() == temp_path
            &&& args.contains("page-ranges=1"@)
            &&& args.contains("scaling=100"@)
            &&& args.contains("ppi=300"@)
            &&& args.contains(printer_name)
            &&& args.contains(decimal_text(copies as nat))
        }),
{
    let host_part = match server_host {
        Some(h) => seq!["-h"@, h],
        None => Seq::<Seq<char>>::empty(),
    };
    let args = lp_arguments(
        printer_name,
        copies,
        server_host,
        width_two_decimals,
        height_two_decimals,
        temp_path,
    );
    let k: int = 1 + host_part.len() as int;
    assert(args[k + 1] == printer_name);
    assert(args[k + 3] == decimal_text(copies as nat));
    assert(args[k + 7] == "scaling=100"@);
    assert(args[k + 9] == "ppi=300"@);
    assert(args[k + 19] == "page-ranges=1"@);
}

} // verus!
