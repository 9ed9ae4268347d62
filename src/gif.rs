//! What a video-to-GIF conversion does, decided from its options: frame rate,
//! palette size, scale, output name, and the filter graph handed to ffmpeg.
use vstd::prelude::*;
use crate::convert::{clamped, stem_or, target_dir, target_dir_of, InputFile, GifOptions};
use crate::error::ValidationError;
use crate::naming::{build_gif_name, gif_name};
use crate::text::{decimal, lower_of, opt_view, push_decimal, same_text, to_lowercase};

verus! {

/// Frames per second: the given rate (15 when absent) clamped into 1..=60.
pub fn effective_fps(fps: Option<u32>) -> (r: u32)
    ensures
        r == clamped(
            match fps {
                Some(v) => v as int,
                None => 15,
            },
            1,
            60,
        ),
{
    let v = match fps {
        Some(v) => v,
        None => 15,
    };
    if v < 1 {
        1
    } else if v > 60 {
        60
    } else {
        v
    }
}

/// Palette size for a lowercased quality name: `high` 256, `low` 96, else 160.
pub open spec fn colors_named(l: Seq<char>) -> nat {
    if l == "high"@ {
        256
    } else if l == "low"@ {
        96
    } else {
        160
    }
}

/// See `colors_named`.
pub fn colors_for_lowered(l: &str) -> (r: u32)
    ensures
        r == colors_named(l@),
{
    if same_text(l, "high") {
        256
    } else if same_text(l, "low") {
        96
    } else {
        160
    }
}

/// Palette size for a quality name in any letter case; `medium`, 160, when absent.
pub fn gif_max_colors(quality: &Option<String>) -> (r: u32)
    ensures
        r == match opt_view(*quality) {
            Some(q) => colors_named(lower_of(q)),
            None => 160,
        },
{
    match quality {
        Some(q) => {
            let l = to_lowercase(q.as_str());
            colors_for_lowered(l.as_str())
        },
        None => 160,
    }
}

/// The scaling step of the filter graph.
pub open spec fn scale_expr(scale: nat) -> Seq<char> {
    "scale=iw*"@ + decimal(scale) + "/100:ih*"@ + decimal(scale) + "/100:flags=lanczos"@
}

/// The ffmpeg filter graph: a palette generated from the scaled frames, then
/// applied to them.
pub open spec fn filter_graph(fps: nat, scale: nat, colors: nat) -> Seq<char> {
    "[0:v]fps="@ + decimal(fps) + ","@ + scale_expr(scale) + ",palettegen=max_colors="@ + decimal(colors)
        + ":stats_mode=diff[pal];[0:v]fps="@ + decimal(fps) + ","@ + scale_expr(scale)
        + "[x];[x][pal]paletteuse=dither=sierra2_4a"@
}

fn push_scale_expr(out: &mut String, scale: u32)
    ensures
        final(out)@ == old(out)@ + scale_expr(scale as nat),
{
    out.append("scale=iw*");
    push_decimal(out, scale as u64);
    out.append("/100:ih*");
    push_decimal(out, scale as u64);
    out.append("/100:flags=lanczos");
    assert(final(out)@ =~= old(out)@ + scale_expr(scale as nat));
}

/// See `filter_graph`.
pub fn gif_filter(fps: u32, scale: u32, colors: u32) -> (r: String)
    ensures
        r@ == filter_graph(fps as nat, scale as nat, colors as nat),
{
    let mut out = String::from_str("[0:v]fps=");
    push_decimal(&mut out, fps as u64);
    out.append(",");
    push_scale_expr(&mut out, scale);
    out.append(",palettegen=max_colors=");
    push_decimal(&mut out, colors as u64);
    out.append(":stats_mode=diff[pal];[0:v]fps=");
    push_decimal(&mut out, fps as u64);
    out.append(",");
    push_scale_expr(&mut out, scale);
    out.append("[x];[x][pal]paletteuse=dither=sierra2_4a");
    assert(out@ =~= filter_graph(fps as nat, scale as nat, colors as nat));
    out
}

/// Everything that a GIF conversion does, decided.
#[derive(Debug, Clone)]
pub struct GifPlan {
    pub fps: u32,
    pub max_colors: u32,
    pub scale_percent: u32,
    pub target_dir: String,
    pub file_name: String,
    pub filter: String,
}

/// Plans the GIF conversion of the video at `path`, described by `input`, at
/// `timestamp`. Fails only on an empty path.
pub fn plan_gif(path: &str, input: &InputFile, options: &GifOptions, timestamp: &str) -> (r: Result<GifPlan, ValidationError>)
    ensures
        path@.len() == 0 ==> r == Err::<GifPlan, ValidationError>(ValidationError::NoVideoSelected),
        path@.len() > 0 ==> (r matches Ok(p) && {
            let fps = clamped(match options.fps { Some(v) => v as int, None => 15 }, 1, 60);
            let sc = clamped(match options.scale_percent { Some(v) => v as int, None => 100 }, 10, 100);
            let colors = match opt_view(options.quality) {
                Some(q) => colors_named(lower_of(q)),
                None => 160,
            };
            &&& p.fps == fps
            &&& p.scale_percent == sc
            &&& p.max_colors == colors
            &&& p.target_dir@ == target_dir_of(opt_view(options.output_dir), opt_view(input.parent))
            &&& p.file_name@ == gif_name(
                opt_view(options.rename_pattern),
                stem_or(opt_view(input.stem), "animation"@),
                timestamp@,
            )
            &&& p.filter@ == filter_graph(fps as nat, sc as nat, colors as nat)
        }),
{
    if path.unicode_len() == 0 {
        return Err(ValidationError::NoVideoSelected);
    }
    let fps = effective_fps(options.fps);
    let max_colors = gif_max_colors(&options.quality);
    let scale_percent = crate::convert::effective_scale(options.scale_percent);
    let dir = target_dir(&options.output_dir, &input.parent);
    let stem = match &input.stem {
        Some(s) => s.clone(),
        None => String::from_str("animation"),
    };
    let file_name = build_gif_name(&options.rename_pattern, stem.as_str(), timestamp);
    let filter = gif_filter(fps, scale_percent, max_colors);
    Ok(GifPlan { fps, max_colors, scale_percent, target_dir: dir, file_name, filter })
}

} // verus!
