use image_compressor::invocation::{scale_filter, transcoder_args};
use image_compressor::options::CompressOptions;

fn options(
    quality: u32,
    max_width: Option<u32>,
    max_height: Option<u32>,
    maintain_aspect_ratio: Option<bool>,
    lossless: Option<bool>,
) -> CompressOptions {
    CompressOptions { quality, max_width, max_height, maintain_aspect_ratio, lossless }
}

#[test]
fn both_limits_with_ratio_fit_within() {
    let o = options(80, Some(800), Some(600), Some(true), None);
    assert_eq!(
        scale_filter(&o).as_deref(),
        Some("scale='min(800,iw)':'min(600,ih)':force_original_aspect_ratio=1")
    );
}

#[test]
fn ratio_is_kept_unless_refused() {
    let o = options(80, Some(800), Some(600), None, None);
    assert_eq!(
        scale_filter(&o).as_deref(),
        Some("scale='min(800,iw)':'min(600,ih)':force_original_aspect_ratio=1")
    );
    assert!(o.keeps_aspect_ratio());
    assert!(!options(80, None, None, Some(false), None).keeps_aspect_ratio());
}

#[test]
fn both_limits_without_ratio_are_exact() {
    let o = options(80, Some(800), Some(600), Some(false), None);
    assert_eq!(scale_filter(&o).as_deref(), Some("scale=800:600"));
}

#[test]
fn width_alone_lets_height_follow() {
    let o = options(80, Some(800), None, None, None);
    assert_eq!(
        scale_filter(&o).as_deref(),
        Some("scale='min(800,iw)':-1:force_original_aspect_ratio=1")
    );
    let o = options(80, Some(800), None, Some(false), None);
    assert_eq!(
        scale_filter(&o).as_deref(),
        Some("scale='min(800,iw)':-1:force_original_aspect_ratio=1")
    );
}

#[test]
fn height_alone_lets_width_follow() {
    let o = options(80, None, Some(4294967295), None, None);
    assert_eq!(
        scale_filter(&o).as_deref(),
        Some("scale=-1:'min(4294967295,ih)':force_original_aspect_ratio=1")
    );
}

#[test]
fn no_limit_no_filter() {
    assert_eq!(scale_filter(&options(80, None, None, None, None)), None);
    assert_eq!(scale_filter(&options(80, None, None, Some(false), Some(true))), None);
}

#[test]
fn lossless_defaults_to_no() {
    assert!(!options(80, None, None, None, None).is_lossless());
    assert!(!options(80, None, None, None, Some(false)).is_lossless());
    assert!(options(80, None, None, None, Some(true)).is_lossless());
}

#[test]
fn arguments_come_in_order() {
    let o = options(80, Some(800), None, None, Some(false));
    assert_eq!(
        transcoder_args("in/cat.png", "out/cat.png", "png", &o),
        vec![
            "-i",
            "in/cat.png",
            "-vf",
            "scale='min(800,iw)':-1:force_original_aspect_ratio=1",
            "-compression_level",
            "1",
            "-f",
            "image2",
            "-c:v",
            "png",
            "out/cat.png",
        ]
    );
}

#[test]
fn arguments_without_filter() {
    let o = options(50, None, None, None, None);
    assert_eq!(
        transcoder_args("a.gif", "b.gif", "gif", &o),
        vec!["-i", "a.gif", "-q:v", "10", "-f", "gif", "b.gif"]
    );
    let o = options(50, None, None, None, Some(true));
    assert_eq!(
        transcoder_args("a.tiff", "b.tiff", "tiff", &o),
        vec!["-i", "a.tiff", "-compression", "lzw", "-f", "image2", "-c:v", "tiff", "b.tiff"]
    );
}
