use image_compressor::error::CompressError;
use image_compressor::formats::{
    build_compression_args, container_args, get_extension, is_supported_format, Format,
};

fn strings(items: &[&str]) -> Vec<String> {
    items.iter().map(|s| s.to_string()).collect()
}

fn last_number(args: &[String]) -> u32 {
    args.last().unwrap().parse().unwrap()
}

#[test]
fn jpeg_quality_is_inverted_and_divided_by_three() {
    assert_eq!(build_compression_args("jpg", 80, false), strings(&["-q:v", "6"]));
    assert_eq!(build_compression_args("jpeg", 80, false), strings(&["-q:v", "6"]));
    assert_eq!(build_compression_args("jpg", 40, false), strings(&["-q:v", "20"]));
}

#[test]
fn jpeg_quality_is_held_between_2_and_31() {
    assert_eq!(build_compression_args("jpg", 100, false), strings(&["-q:v", "2"]));
    assert_eq!(build_compression_args("jpg", 97, false), strings(&["-q:v", "2"]));
    assert_eq!(build_compression_args("jpg", 1, false), strings(&["-q:v", "31"]));
    assert_eq!(build_compression_args("jpg", 7, false), strings(&["-q:v", "31"]));
    assert_eq!(build_compression_args("jpg", 8, false), strings(&["-q:v", "30"]));
}

#[test]
fn jpeg_lossless_forces_best_quality() {
    assert_eq!(build_compression_args("jpg", 10, true), strings(&["-q:v", "0"]));
    assert_eq!(build_compression_args("jpeg", 90, true), strings(&["-q:v", "0"]));
}

#[test]
fn png_level_is_inverted_and_divided_by_eleven() {
    assert_eq!(build_compression_args("png", 80, false), strings(&["-compression_level", "1"]));
    assert_eq!(build_compression_args("png", 45, false), strings(&["-compression_level", "5"]));
    assert_eq!(build_compression_args("png", 100, false), strings(&["-compression_level", "0"]));
    assert_eq!(build_compression_args("png", 1, false), strings(&["-compression_level", "9"]));
}

#[test]
fn png_lossless_forces_level_zero() {
    assert_eq!(build_compression_args("png", 30, true), strings(&["-compression_level", "0"]));
}

#[test]
fn webp_quality_passes_through() {
    assert_eq!(build_compression_args("webp", 80, false), strings(&["-quality", "80"]));
    assert_eq!(build_compression_args("webp", 1, false), strings(&["-quality", "1"]));
    assert_eq!(build_compression_args("webp", 100, false), strings(&["-quality", "100"]));
}

#[test]
fn webp_lossless_ignores_quality() {
    for quality in [0u32, 1, 50, 80, 100, 101, u32::MAX] {
        assert_eq!(build_compression_args("webp", quality, true), strings(&["-lossless", "1"]));
    }
}

#[test]
fn gif_and_bmp_divide_by_five() {
    assert_eq!(build_compression_args("gif", 50, false), strings(&["-q:v", "10"]));
    assert_eq!(build_compression_args("bmp", 50, false), strings(&["-q:v", "10"]));
    assert_eq!(build_compression_args("gif", 100, false), strings(&["-q:v", "2"]));
    assert_eq!(build_compression_args("bmp", 1, false), strings(&["-q:v", "19"]));
    assert_eq!(build_compression_args("gif", 50, true), strings(&["-q:v", "10"]));
    assert_eq!(build_compression_args("bmp", 50, true), strings(&["-q:v", "10"]));
}

#[test]
fn tiff_names_its_compression() {
    assert_eq!(build_compression_args("tiff", 50, true), strings(&["-compression", "lzw"]));
    assert_eq!(
        build_compression_args("tiff", 50, false),
        strings(&["-compression", "jpeg", "-q:v", "10"])
    );
}

#[test]
fn unknown_format_falls_back_to_generic_quality() {
    assert_eq!(build_compression_args("xyz", 50, false), strings(&["-q:v", "10"]));
    assert_eq!(build_compression_args("", 50, true), strings(&["-q:v", "10"]));
    assert_eq!(build_compression_args("JPG", 80, false), strings(&["-q:v", "4"]));
}

#[test]
fn quality_outside_1_to_100_is_held_not_refused() {
    assert_eq!(build_compression_args("jpg", 0, false), strings(&["-q:v", "31"]));
    assert_eq!(build_compression_args("jpg", 101, false), strings(&["-q:v", "2"]));
    assert_eq!(build_compression_args("jpg", u32::MAX, false), strings(&["-q:v", "2"]));
    assert_eq!(build_compression_args("png", 5000, false), strings(&["-compression_level", "0"]));
    assert_eq!(build_compression_args("png", 0, false), strings(&["-compression_level", "9"]));
    assert_eq!(build_compression_args("gif", 0, false), strings(&["-q:v", "20"]));
}

#[test]
fn every_quality_lands_in_the_format_range() {
    for quality in 1u32..=100 {
        for key in ["jpg", "jpeg", "gif", "bmp", "tiff", "other"] {
            let n = last_number(&build_compression_args(key, quality, false));
            assert!((2..=31).contains(&n), "{key} {quality} gave {n}");
        }
        let n = last_number(&build_compression_args("png", quality, false));
        assert!(n <= 9);
        assert_eq!(last_number(&build_compression_args("webp", quality, false)), quality);
    }
}

#[test]
fn higher_quality_is_never_worse() {
    for key in ["jpg", "png", "gif", "bmp", "tiff", "other"] {
        let mut previous = last_number(&build_compression_args(key, 1, false));
        for quality in 2u32..=100 {
            let n = last_number(&build_compression_args(key, quality, false));
            assert!(n <= previous);
            previous = n;
        }
    }
}

#[test]
fn native_quality_of_each_policy() {
    assert_eq!(Format::Jpeg.native(80), 6);
    assert_eq!(Format::Png.native(80), 1);
    assert_eq!(Format::Webp.native(80), 80);
    assert_eq!(Format::Gif.native(80), 4);
    assert_eq!(Format::Bmp.native(80), 4);
    assert_eq!(Format::Tiff.native(80), 4);
    assert_eq!(Format::Other.native(80), 4);
    assert_eq!(Format::Webp.native(4000), 4000);
}

#[test]
fn format_keys_select_policies() {
    assert_eq!(Format::from_key("jpg"), Format::Jpeg);
    assert_eq!(Format::from_key("jpeg"), Format::Jpeg);
    assert_eq!(Format::from_key("png"), Format::Png);
    assert_eq!(Format::from_key("webp"), Format::Webp);
    assert_eq!(Format::from_key("gif"), Format::Gif);
    assert_eq!(Format::from_key("bmp"), Format::Bmp);
    assert_eq!(Format::from_key("tiff"), Format::Tiff);
    assert_eq!(Format::from_key("tif"), Format::Other);
    assert_eq!(Format::from_key("PNG"), Format::Other);
    assert_eq!(Format::from_key(""), Format::Other);
}

#[test]
fn container_and_codec_per_format() {
    assert_eq!(container_args("png"), strings(&["-f", "image2", "-c:v", "png"]));
    assert_eq!(container_args("jpg"), strings(&["-f", "image2", "-c:v", "mjpeg"]));
    assert_eq!(container_args("jpeg"), strings(&["-f", "image2", "-c:v", "mjpeg"]));
    assert_eq!(container_args("webp"), strings(&["-f", "image2", "-c:v", "libwebp"]));
    assert_eq!(container_args("gif"), strings(&["-f", "gif"]));
    assert_eq!(container_args("bmp"), strings(&["-f", "image2", "-c:v", "bmp"]));
    assert_eq!(container_args("tiff"), strings(&["-f", "image2", "-c:v", "tiff"]));
    assert_eq!(container_args("heic"), strings(&["-f", "image2"]));
}

#[test]
fn supported_formats_in_any_case() {
    for ext in ["jpg", "jpeg", "png", "webp", "gif", "bmp", "tiff"] {
        assert!(is_supported_format(ext));
        assert!(is_supported_format(&ext.to_uppercase()));
    }
    assert!(is_supported_format("JpEg"));
}

#[test]
fn other_extensions_are_not_supported() {
    for ext in ["", "txt", "tif", "jpg ", ".jpg", "jp", "jpegx", "svg", "pnG\u{301}"] {
        assert!(!is_supported_format(ext), "{ext}");
    }
}

#[test]
fn extension_is_lower_cased() {
    assert_eq!(get_extension("/photos/Cat.PNG").unwrap(), "png");
    assert_eq!(get_extension("cat.jpeg").unwrap(), "jpeg");
    assert_eq!(get_extension("archive.tar.GZ").unwrap(), "gz");
    assert_eq!(get_extension("dir.d/x.Webp").unwrap(), "webp");
    assert_eq!(get_extension("trailing.").unwrap(), "");
}

#[test]
fn extension_is_read_past_trailing_separators_and_dots() {
    assert_eq!(get_extension("a.png/").unwrap(), "png");
    assert_eq!(get_extension("a.png//").unwrap(), "png");
    assert_eq!(get_extension("a.png/.").unwrap(), "png");
    assert_eq!(get_extension("photos/Cat.JPG/./").unwrap(), "jpg");
}

#[test]
fn path_without_extension_is_refused() {
    for path in
        ["", "cat", "/photos/cat", ".hidden", "dir.d/cat", "photos/", "..", "a/..", "a.png/..", "/"]
    {
        match get_extension(path) {
            Err(CompressError::UnsupportedFormat { extension: None }) => {}
            other => panic!("{path}: {other:?}"),
        }
    }
}
