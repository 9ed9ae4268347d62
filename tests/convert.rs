use devtoolbox::convert::{
    can_copy_without_changes, effective_quality, effective_scale, format_extension, input_format,
    parse_format, plan_conversion, resize_target, ConvertOptions, GifOptions, InputFile, TargetFormat,
};
use devtoolbox::error::ValidationError;
use devtoolbox::gif::{effective_fps, gif_filter, gif_max_colors, plan_gif};

fn options() -> ConvertOptions {
    ConvertOptions {
        target_format: None,
        quality_percent: None,
        output_dir: None,
        scale_percent: None,
        rename_pattern: None,
        strip_exif: None,
    }
}

fn input(stem: &str, ext: &str, parent: &str) -> InputFile {
    InputFile {
        stem: Some(stem.to_string()),
        extension: Some(ext.to_string()),
        parent: Some(parent.to_string()),
    }
}

#[test]
fn formats_parse_in_any_case() {
    assert_eq!(parse_format("JPG"), Ok(TargetFormat::Jpeg));
    assert_eq!(parse_format("jpeg"), Ok(TargetFormat::Jpeg));
    assert_eq!(parse_format("Png"), Ok(TargetFormat::Png));
    assert_eq!(parse_format("WEBP"), Ok(TargetFormat::WebP));
    let e = parse_format("BMP").unwrap_err();
    assert_eq!(e, ValidationError::UnsupportedFormat("bmp".to_string()));
    assert_eq!(e.message(), "Unsupported format: bmp");
    assert_eq!(format_extension(TargetFormat::Jpeg), "jpeg");
}

#[test]
fn option_clamps() {
    assert_eq!(effective_quality(None), 90);
    assert_eq!(effective_quality(Some(10)), 50);
    assert_eq!(effective_quality(Some(200)), 100);
    assert_eq!(effective_scale(None), 100);
    assert_eq!(effective_scale(Some(5)), 10);
    assert_eq!(effective_scale(Some(55)), 55);
    assert_eq!(effective_fps(None), 15);
    assert_eq!(effective_fps(Some(0)), 1);
    assert_eq!(effective_fps(Some(120)), 60);
}

#[test]
fn resize_sizes() {
    assert_eq!(resize_target(1000, 500, 100), None);
    assert_eq!(resize_target(1000, 500, 50), Some((500, 250)));
    assert_eq!(resize_target(1, 1, 10), Some((1, 1)));
    assert_eq!(resize_target(u32::MAX, 3, 50), Some((u32::MAX / 100, 1)));
}

#[test]
fn copy_only_when_nothing_changes() {
    assert!(can_copy_without_changes(false, 100, 100, Some(TargetFormat::Png), TargetFormat::Png));
    assert!(!can_copy_without_changes(true, 100, 100, Some(TargetFormat::Png), TargetFormat::Png));
    assert!(!can_copy_without_changes(false, 100, 90, Some(TargetFormat::Png), TargetFormat::Png));
    assert!(!can_copy_without_changes(false, 100, 100, None, TargetFormat::Png));
    assert_eq!(input_format(&Some("JPG".to_string())), Some(TargetFormat::Jpeg));
    assert_eq!(input_format(&Some("jfif".to_string())), Some(TargetFormat::Jpeg));
    assert_eq!(input_format(&Some("apng".to_string())), Some(TargetFormat::Png));
    assert_eq!(input_format(&Some("gif".to_string())), None);
    assert_eq!(input_format(&None), None);
}

#[test]
fn plan_defaults() {
    let p = plan_conversion(&input("photo", "png", "/pics"), &options(), 1, "t").unwrap();
    assert_eq!(p.format, TargetFormat::Jpeg);
    assert_eq!(p.quality, 90);
    assert_eq!(p.scale_percent, 100);
    assert_eq!(p.target_dir, "/pics");
    assert_eq!(p.file_name, "photo_converted.jpeg");
    assert!(!p.copy_unchanged);
}

#[test]
fn plan_with_pattern_and_copy() {
    let mut o = options();
    o.target_format = Some("PNG".to_string());
    o.quality_percent = Some(100);
    o.output_dir = Some("/out".to_string());
    o.rename_pattern = Some("{basename}_{index_0001}".to_string());
    let p = plan_conversion(&input("photo", "png", "/pics"), &o, 3, "t").unwrap();
    assert_eq!(p.file_name, "photo_0003.png");
    assert_eq!(p.target_dir, "/out");
    assert!(p.copy_unchanged);
    let none = InputFile { stem: None, extension: None, parent: None };
    let q = plan_conversion(&none, &o, 3, "t").unwrap();
    assert_eq!(q.file_name, "image_0003.png");
    assert_eq!(q.target_dir, "/out");
    o.output_dir = None;
    assert_eq!(plan_conversion(&none, &o, 3, "t").unwrap().target_dir, ".");
    o.target_format = Some("tiff".to_string());
    assert_eq!(
        plan_conversion(&none, &o, 3, "t").unwrap_err(),
        ValidationError::UnsupportedFormat("tiff".to_string())
    );
}

#[test]
fn gif_filter_text() {
    assert_eq!(
        gif_filter(15, 50, 160),
        "[0:v]fps=15,scale=iw*50/100:ih*50/100:flags=lanczos,palettegen=max_colors=160:stats_mode=diff[pal];\
[0:v]fps=15,scale=iw*50/100:ih*50/100:flags=lanczos[x];[x][pal]paletteuse=dither=sierra2_4a"
    );
}

#[test]
fn gif_palette_by_quality() {
    assert_eq!(gif_max_colors(&None), 160);
    assert_eq!(gif_max_colors(&Some("HIGH".to_string())), 256);
    assert_eq!(gif_max_colors(&Some("low".to_string())), 96);
    assert_eq!(gif_max_colors(&Some("other".to_string())), 160);
}

#[test]
fn gif_plan() {
    let o = GifOptions { fps: None, quality: None, scale_percent: Some(200), output_dir: None, rename_pattern: None };
    let p = plan_gif("/v/clip.mp4", &input("clip", "mp4", "/v"), &o, "t").unwrap();
    assert_eq!(p.file_name, "clip_animated.gif");
    assert_eq!(p.fps, 15);
    assert_eq!(p.scale_percent, 100);
    assert_eq!(p.max_colors, 160);
    assert_eq!(p.target_dir, "/v");
    assert!(p.filter.starts_with("[0:v]fps=15,scale=iw*100/100"));
    let e = plan_gif("", &input("clip", "mp4", "/v"), &o, "t").unwrap_err();
    assert_eq!(e, ValidationError::NoVideoSelected);
    assert_eq!(e.message(), "No video selected for GIF creation");
}
