use devtoolbox::naming::{apply_pattern, build_gif_name, build_name, resolve_collision, CollisionSearch};

#[test]
fn pattern_with_padded_index() {
    let name = build_name(
        &Some("{basename}_{index_0001}.{ext}".to_string()),
        "photo",
        "png",
        3,
        "20240101_120000",
    );
    assert_eq!(name, "photo_0003.png");
}

#[test]
fn no_pattern_falls_back_to_converted() {
    assert_eq!(build_name(&None, "photo", "jpeg", 1, "20240101_120000"), "photo_converted.jpeg");
}

#[test]
fn gif_fallback_name() {
    assert_eq!(build_gif_name(&None, "clip", "20240101_120000"), "clip_animated.gif");
    assert_eq!(build_gif_name(&Some("{basename}-{index}".to_string()), "clip", "t"), "clip-1.gif");
}

#[test]
fn pattern_tokens_and_extension_appended() {
    assert_eq!(apply_pattern("{YYYYMMDD_HHmmss}-{index}", "a", "webp", 12, "20240102_030405"), "20240102_030405-12.webp");
    assert_eq!(apply_pattern("{basename}.{ext}", "a", "png", 1, "t"), "a.png");
    assert_eq!(apply_pattern("x.PNG", "a", "png", 1, "t"), "x.PNG.png");
    assert_eq!(apply_pattern("{index_0001}", "a", "png", 12345, "t"), "12345.png");
    assert_eq!(apply_pattern("", "a", "png", 0, "t"), ".png");
}

fn resolve_against(existing: &[&str], name: &str, overwrite: bool) -> String {
    let taken = existing.contains(&name);
    match resolve_collision(name, taken, overwrite) {
        None => name.to_string(),
        Some(mut search) => loop {
            let candidate = search.candidate();
            if !existing.contains(&candidate.as_str()) {
                break candidate;
            }
            search.advance();
        },
    }
}

#[test]
fn collision_decline_renames_to_first_free() {
    assert_eq!(resolve_against(&["out.png", "out_1.png"], "out.png", false), "out_2.png");
}

#[test]
fn collision_accept_overwrites() {
    assert_eq!(resolve_against(&["out.png", "out_1.png"], "out.png", true), "out.png");
}

#[test]
fn collision_free_name_kept() {
    assert_eq!(resolve_against(&["other.png"], "out.png", false), "out.png");
}

#[test]
fn collision_name_without_extension() {
    let s = CollisionSearch::new("README");
    assert_eq!(s.stem, "README");
    assert_eq!(s.ext, "img");
    assert_eq!(s.candidate(), "README_1.img");
    let t = CollisionSearch::new(".hidden");
    assert_eq!(t.candidate(), ".hidden_1.img");
    let u = CollisionSearch::new("a.b.png");
    assert_eq!(u.candidate(), "a.b_1.png");
}
