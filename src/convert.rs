//! What a conversion does, decided from its options before any pixel work:
//! target format, quality, scale, output directory and file name.
use vstd::prelude::*;
use crate::error::ValidationError;
use crate::naming::{build_name, still_name};
use crate::text::{lower_of, opt_view, same_text, to_lowercase};

verus! {

/// Options shared by every item of a still-image conversion job.
#[derive(Debug, Clone)]
pub struct ConvertOptions {
    pub target_format: Option<String>,
    pub quality_percent: Option<u8>,
    pub output_dir: Option<String>,
    pub scale_percent: Option<u32>,
    pub rename_pattern: Option<String>,
    pub strip_exif: Option<bool>,
}

/// Options of a video-to-GIF conversion.
#[derive(Debug, Clone)]
pub struct GifOptions {
    pub fps: Option<u32>,
    pub quality: Option<String>,
    pub scale_percent: Option<u32>,
    pub output_dir: Option<String>,
    pub rename_pattern: Option<String>,
}

/// A still-image output format.
#[derive(Debug, Clone, Copy, PartialEq, Eq, Structural)]
pub enum TargetFormat {
    Jpeg,
    Png,
    WebP,
}

/// The format that a lowercased format name selects.
pub open spec fn format_named(l: Seq<char>) -> Option<TargetFormat> {
    if l == "jpeg"@ || l == "jpg"@ {
        Some(TargetFormat::Jpeg)
    } else if l == "png"@ {
        Some(TargetFormat::Png)
    } else if l == "webp"@ {
        Some(TargetFormat::WebP)
    } else {
        None
    }
}

/// The result of parsing an already lowercased format name.
pub open spec fn parsed_format(l: Seq<char>, r: Result<TargetFormat, ValidationError>) -> bool {
    match format_named(l) {
        Some(f) => r == Ok::<TargetFormat, ValidationError>(f),
        None => r matches Err(ValidationError::UnsupportedFormat(s)) && s@ == l,
    }
}

/// Parses a lowercased format name: `jpeg` or `jpg`, `png`, `webp`.
pub fn format_from_lowered(l: &str) -> (r: Result<TargetFormat, ValidationError>)
    ensures
        parsed_format(l@, r),
{
    if same_text(l, "jpeg") || same_text(l, "jpg") {
        Ok(TargetFormat::Jpeg)
    } else if same_text(l, "png") {
        Ok(TargetFormat::Png)
    } else if same_text(l, "webp") {
        Ok(TargetFormat::WebP)
    } else {
        Err(ValidationError::UnsupportedFormat(String::from_str(l)))
    }
}

/// Parses a format name, in any letter case.
pub fn parse_format(format: &str) -> (r: Result<TargetFormat, ValidationError>)
    ensures
        parsed_format(lower_of(format@), r),
{
    let l = to_lowercase(format);
    format_from_lowered(l.as_str())
}

/// The file extension written for a format.
pub open spec fn extension_for(f: TargetFormat) -> Seq<char> {
    match f {
        TargetFormat::Jpeg => "jpeg"@,
        TargetFormat::Png => "png"@,
        TargetFormat::WebP => "webp"@,
    }
}

/// The file extension written for `f`.
pub fn format_extension(f: TargetFormat) -> (r: &'static str)
    ensures
        r@ == extension_for(f),
{
    match f {
        TargetFormat::Jpeg => "jpeg",
        TargetFormat::Png => "png",
        TargetFormat::WebP => "webp",
    }
}

/// Whether `t`, all lowercase, is `s` with its ASCII capitals lowered.
pub open spec fn ascii_lowers_to(s: Seq<char>, t: Seq<char>) -> bool {
    &&& s.len() == t.len()
    &&& forall|i: int|
        0 <= i < s.len() ==> #[trigger] s[i] == t[i] || ('a' <= t[i] && t[i] <= 'z' && s[i] as u32 + 32
            == t[i] as u32)
}

/// Which of the target formats the image codec reads from a file extension.
pub open spec fn format_of_extension(ext: Seq<char>) -> Option<TargetFormat> {
    if ascii_lowers_to(ext, "jpg"@) || ascii_lowers_to(ext, "jpeg"@) || ascii_lowers_to(ext, "jfif"@) {
        Some(TargetFormat::Jpeg)
    } else if ascii_lowers_to(ext, "png"@) || ascii_lowers_to(ext, "apng"@) {
        Some(TargetFormat::Png)
    } else if ascii_lowers_to(ext, "webp"@) {
        Some(TargetFormat::WebP)
    } else {
        None
    }
}

/// Relies on `image::ImageFormat::from_extension`: it lowers the ASCII
/// capitals of the extension and maps `jpg`, `jpeg`, `jfif` to JPEG, `png`,
/// `apng` to PNG and `webp` to WebP; other formats are not targets here.
#[verifier::external_body]
fn codec_format_of_extension(ext: &str) -> (r: Option<TargetFormat>)
    ensures
        r == format_of_extension(ext@),
{
    match image::ImageFormat::from_extension(ext) {
        Some(image::ImageFormat::Jpeg) => Some(TargetFormat::Jpeg),
        Some(image::ImageFormat::Png) => Some(TargetFormat::Png),
        Some(image::ImageFormat::WebP) => Some(TargetFormat::WebP),
        _ => None,
    }
}

/// The input format guessed from an input file's extension, if it is a target format.
pub fn input_format(ext: &Option<String>) -> (r: Option<TargetFormat>)
    ensures
        r == match opt_view(*ext) {
            Some(e) => format_of_extension(e),
            None => None,
        },
{
    match ext {
        Some(e) => codec_format_of_extension(e.as_str()),
        None => None,
    }
}

/// `v` clamped into `[lo, hi]`.
pub open spec fn clamped(v: int, lo: int, hi: int) -> int {
    if v < lo {
        lo
    } else if v > hi {
        hi
    } else {
        v
    }
}

/// JPEG quality: the given percent (90 when absent) clamped into 50..=100.
pub fn effective_quality(q: Option<u8>) -> (r: u8)
    ensures
        r == clamped(
            match q {
                Some(v) => v as int,
                None => 90,
            },
            50,
            100,
        ),
{
    let v = match q {
        Some(v) => v,
        None => 90,
    };
    if v < 50 {
        50
    } else if v > 100 {
        100
    } else {
        v
    }
}

/// Scale percent: the given one (100 when absent) clamped into 10..=100.
pub fn effective_scale(s: Option<u32>) -> (r: u32)
    ensures
        r == clamped(
            match s {
                Some(v) => v as int,
                None => 100,
            },
            10,
            100,
        ),
{
    let v = match s {
        Some(v) => v,
        None => 100,
    };
    if v < 10 {
        10
    } else if v > 100 {
        100
    } else {
        v
    }
}

/// One side of an image scaled to `scale` percent: the product saturates at
/// `u32::MAX`, is divided by 100, and is at least 1.
pub open spec fn scaled_side(side: nat, scale: nat) -> nat {
    let p = if side * scale > u32::MAX { u32::MAX as nat } else { side * scale };
    if p / 100 < 1 {
        1
    } else {
        p / 100
    }
}

fn scale_side(side: u32, scale: u32) -> (r: u32)
    ensures
        r == scaled_side(side as nat, scale as nat),
{
    assert((side as u64) * (scale as u64) <= u32::MAX as int * u32::MAX as int) by (nonlinear_arith)
        requires
            side <= u32::MAX,
            scale <= u32::MAX,
    ;
    let p: u64 = (side as u64) * (scale as u64);
    let sat: u64 = if p > u32::MAX as u64 { u32::MAX as u64 } else { p };
    let q = sat / 100;
    if q < 1 {
        1
    } else {
        q as u32
    }
}

/// The size to resize a `width` by `height` image to, or `None` when the
/// scale is 100 percent or more and the image stays as it is.
pub fn resize_target(width: u32, height: u32, scale: u32) -> (r: Option<(u32, u32)>)
    ensures
        scale >= 100 ==> r is None,
        scale < 100 ==> r == Some(
            (scaled_side(width as nat, scale as nat) as u32, scaled_side(height as nat, scale as nat) as u32),
        ),
{
    if scale >= 100 {
        None
    } else {
        Some((scale_side(width, scale), scale_side(height, scale)))
    }
}

/// Whether the input can be copied byte for byte: nothing to strip, no
/// scaling, full quality, and the input already in the target format.
pub open spec fn copy_allowed(strip: bool, scale: nat, quality: nat, input: Option<TargetFormat>, target: TargetFormat) -> bool {
    !strip && scale == 100 && quality == 100 && input == Some(target)
}

/// See `copy_allowed`.
pub fn can_copy_without_changes(
    strip: bool,
    scale: u32,
    quality: u8,
    input: Option<TargetFormat>,
    target: TargetFormat,
) -> (r: bool)
    ensures
        r == copy_allowed(strip, scale as nat, quality as nat, input, target),
{
    let same = match input {
        Some(f) => f == target,
        None => false,
    };
    !strip && scale == 100 && quality == 100 && same
}

/// The directory an output goes to: the chosen one, else the input's
/// parent, else the current directory.
pub open spec fn target_dir_of(output_dir: Option<Seq<char>>, parent: Option<Seq<char>>) -> Seq<char> {
    match output_dir {
        Some(d) => d,
        None => match parent {
            Some(p) => p,
            None => "."@,
        },
    }
}

/// See `target_dir_of`.
pub fn target_dir(output_dir: &Option<String>, parent: &Option<String>) -> (r: String)
    ensures
        r@ == target_dir_of(opt_view(*output_dir), opt_view(*parent)),
{
    match output_dir {
        Some(d) => d.clone(),
        None => match parent {
            Some(p) => p.clone(),
            None => String::from_str("."),
        },
    }
}

/// The input's file stem, or `default` when it has none.
pub open spec fn stem_or(stem: Option<Seq<char>>, default: Seq<char>) -> Seq<char> {
    match stem {
        Some(s) => s,
        None => default,
    }
}

/// Everything that the conversion of one still image does, decided.
#[derive(Debug, Clone)]
pub struct ConversionPlan {
    pub format: TargetFormat,
    pub quality: u8,
    pub scale_percent: u32,
    pub target_dir: String,
    pub file_name: String,
    /// Whether the input is copied as it is instead of re-encoded.
    pub copy_unchanged: bool,
}

/// The input file as the conversion sees it.
pub struct InputFile {
    /// The file name without its extension, if it has a file name.
    pub stem: Option<String>,
    /// The file's extension, if any.
    pub extension: Option<String>,
    /// The directory holding the file, if any.
    pub parent: Option<String>,
}

/// Plans the conversion of `input`, the `index`-th item of its job (from 1),
/// at `timestamp`. Fails only on an unsupported target format (`jpeg` when
/// none is given).
pub fn plan_conversion(input: &InputFile, options: &ConvertOptions, index: usize, timestamp: &str) -> (r: Result<ConversionPlan, ValidationError>)
    ensures
        ({
            let fmt = match options.target_format {
                Some(t) => lower_of(t@),
                None => "jpeg"@,
            };
            match format_named(fmt) {
                None => r matches Err(ValidationError::UnsupportedFormat(s)) && s@ == fmt,
                Some(f) => r matches Ok(p) && {
                    let q = clamped(match options.quality_percent { Some(v) => v as int, None => 90 }, 50, 100);
                    let sc = clamped(match options.scale_percent { Some(v) => v as int, None => 100 }, 10, 100);
                    let strip = match options.strip_exif { Some(b) => b, None => false };
                    let inf = match opt_view(input.extension) { Some(e) => format_of_extension(e), None => None };
                    &&& p.format == f
                    &&& p.quality == q
                    &&& p.scale_percent == sc
                    &&& p.target_dir@ == target_dir_of(opt_view(options.output_dir), opt_view(input.parent))
                    &&& p.file_name@ == still_name(
                        opt_view(options.rename_pattern),
                        stem_or(opt_view(input.stem), "image"@),
                        extension_for(f),
                        index as nat,
                        timestamp@,
                    )
                    &&& p.copy_unchanged == copy_allowed(strip, sc as nat, q as nat, inf, f)
                },
            }
        }),
{
    let parsed = match &options.target_format {
        Some(t) => parse_format(t.as_str()),
        None => {
            proof {
                reveal_strlit("jpeg");
            }
            format_from_lowered("jpeg")
        },
    };
    let format = match parsed {
        Ok(f) => f,
        Err(e) => {
            return Err(e);
        },
    };
    let quality = effective_quality(options.quality_percent);
    let scale_percent = effective_scale(options.scale_percent);
    let strip = match options.strip_exif {
        Some(b) => b,
        None => false,
    };
    let dir = target_dir(&options.output_dir, &input.parent);
    let ext = format_extension(format);
    let stem = match &input.stem {
        Some(s) => s.clone(),
        None => String::from_str("image"),
    };
    let file_name = build_name(&options.rename_pattern, stem.as_str(), ext, index, timestamp);
    let inf = input_format(&input.extension);
    let copy_unchanged = can_copy_without_changes(strip, scale_percent, quality, inf, format);
    Ok(ConversionPlan { format, quality, scale_percent, target_dir: dir, file_name, copy_unchanged })
}

} // verus!
