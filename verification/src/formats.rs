//! The format policy: which inputs are accepted, and how a quality on the
//! scale of 1 to 100 becomes the transcoder arguments of each format.

use vstd::prelude::*;
use vstd::string::*;
use crate::error::{CompressError, ErrorView};
use crate::paths::{extension, path_file_name, split_extension};
use crate::text::{ascii_lower, decimal, str_eq, to_ascii_lower, to_decimal, views};

verus! {

/// The policy that a format key selects. `jpg` and `jpeg` share one; a key
/// that names no supported format selects `Other`.
#[derive(Clone, Copy, Debug, PartialEq, Eq, Structural)]
pub enum Format {
    Jpeg,
    Png,
    Webp,
    Gif,
    Bmp,
    Tiff,
    Other,
}

/// The policy of a format key. Keys are matched as written: they are the
/// lower-case extensions that `get_extension` returns.
pub open spec fn format_of(key: Seq<char>) -> Format {
    if key == "jpg"@ || key == "jpeg"@ {
        Format::Jpeg
    } else if key == "png"@ {
        Format::Png
    } else if key == "webp"@ {
        Format::Webp
    } else if key == "gif"@ {
        Format::Gif
    } else if key == "bmp"@ {
        Format::Bmp
    } else if key == "tiff"@ {
        Format::Tiff
    } else {
        Format::Other
    }
}

/// Whether files with this extension are accepted, whatever the case of its
/// letters.
pub open spec fn supported(ext: Seq<char>) -> bool {
    format_of(ascii_lower(ext)) != Format::Other
}

/// `x` held within `lo..=hi`.
pub open spec fn clamp(x: int, lo: int, hi: int) -> int {
    if x < lo {
        lo
    } else if x > hi {
        hi
    } else {
        x
    }
}

/// How far `quality` lies below 100; zero for a quality of 100 or more.
pub open spec fn shortfall(quality: u32) -> int {
    if quality >= 100 {
        0
    } else {
        100 - quality
    }
}

/// The bounds between which a format's native quality is held, if it is held.
pub open spec fn clamp_range(format: Format) -> Option<(int, int)> {
    match format {
        Format::Png => Some((0, 9)),
        Format::Webp => None,
        _ => Some((2, 31)),
    }
}

/// The quality on the format's own scale. On every scale but that of `Webp` a
/// smaller number means a better picture.
pub open spec fn native_quality(format: Format, quality: u32) -> int {
    match format {
        Format::Jpeg => clamp(shortfall(quality) / 3, 2, 31),
        Format::Png => clamp(shortfall(quality) / 11, 0, 9),
        Format::Webp => quality as int,
        _ => clamp(shortfall(quality) / 5, 2, 31),
    }
}

/// The arguments that select quality or lossless mode for `format`.
pub open spec fn codec_args(format: Format, quality: u32, lossless: bool) -> Seq<Seq<char>> {
    let level = decimal(native_quality(format, quality) as nat);
    match format {
        Format::Jpeg => if lossless {
            seq!["-q:v"@, "0"@]
        } else {
            seq!["-q:v"@, level]
        },
        Format::Png => if lossless {
            seq!["-compression_level"@, "0"@]
        } else {
            seq!["-compression_level"@, level]
        },
        Format::Webp => if lossless {
            seq!["-lossless"@, "1"@]
        } else {
            seq!["-quality"@, level]
        },
        Format::Tiff => if lossless {
            seq!["-compression"@, "lzw"@]
        } else {
            seq!["-compression"@, "jpeg"@, "-q:v"@, level]
        },
        _ => seq!["-q:v"@, level],
    }
}

/// The arguments that select the output container and codec for `format`.
pub open spec fn container_args_of(format: Format) -> Seq<Seq<char>> {
    match format {
        Format::Jpeg => seq!["-f"@, "image2"@, "-c:v"@, "mjpeg"@],
        Format::Png => seq!["-f"@, "image2"@, "-c:v"@, "png"@],
        Format::Webp => seq!["-f"@, "image2"@, "-c:v"@, "libwebp"@],
        Format::Gif => seq!["-f"@, "gif"@],
        Format::Bmp => seq!["-f"@, "image2"@, "-c:v"@, "bmp"@],
        Format::Tiff => seq!["-f"@, "image2"@, "-c:v"@, "tiff"@],
        Format::Other => seq!["-f"@, "image2"@],
    }
}

/// Whether a higher native quality means a better picture.
pub open spec fn higher_is_better(format: Format) -> bool {
    format == Format::Webp
}

/// Whether native quality `a` is at least as good as `b` on the scale of
/// `format`.
pub open spec fn at_least_as_good(format: Format, a: int, b: int) -> bool {
    if higher_is_better(format) {
        a >= b
    } else {
        a <= b
    }
}

/// For a quality from 1 to 100 the native quality lies within the format's
/// bounds; on the pass-through scale of `Webp` it is the quality itself.
pub proof fn lemma_native_quality_in_range(format: Format, quality: u32)
    requires
        1 <= quality <= 100,
    ensures
        match clamp_range(format) {
            Some((lo, hi)) => lo <= native_quality(format, quality) <= hi,
            None => native_quality(format, quality) == quality,
        },
{
}

/// A quality of 100 gives the best value that the format's scale allows.
pub proof fn lemma_full_quality_is_best(format: Format)
    ensures
        match clamp_range(format) {
            Some((lo, hi)) => native_quality(format, 100) == lo,
            None => native_quality(format, 100) == 100,
        },
{
}

/// Raising the quality never makes the native quality worse. So of all
/// qualities from 1 to 100, 1 gives the worst native quality and 100 the best.
pub proof fn lemma_native_quality_monotone(format: Format, low: u32, high: u32)
    requires
        low <= high,
    ensures
        at_least_as_good(
            format,
            native_quality(format, high),
            native_quality(format, low),
        ),
{
    let a = shortfall(high);
    let b = shortfall(low);
    assert(a <= b);
    assert(a / 3 <= b / 3 && a / 11 <= b / 11 && a / 5 <= b / 5) by (nonlinear_arith)
        requires
            0 <= a <= b,
    ;
}

/// A quality of 1 gives the worst value of the scale for `Jpeg` and `Png`,
/// and 1 itself for `Webp`.
pub proof fn lemma_least_quality_is_worst(format: Format)
    requires
        format == Format::Jpeg || format == Format::Png || format == Format::Webp,
    ensures
        match clamp_range(format) {
            Some((lo, hi)) => native_quality(format, 1) == hi,
            None => native_quality(format, 1) == 1,
        },
{
}

/// Without lossless mode the last argument is the numeral of the native
/// quality.
pub proof fn lemma_codec_args_end_in_native_quality(format: Format, quality: u32)
    ensures
        codec_args(format, quality, false).last() == decimal(
            native_quality(format, quality) as nat,
        ),
{
}

/// In lossless mode `Webp` gets the lossless switch, whatever the quality.
pub proof fn lemma_webp_lossless_ignores_quality(quality: u32)
    ensures
        codec_args(Format::Webp, quality, true) == seq!["-lossless"@, "1"@],
{
}

impl Format {
    /// The policy that the key `key` selects.
    pub fn from_key(key: &str) -> (r: Format)
        ensures
            r == format_of(key@),
    {
        if str_eq(key, "jpg") || str_eq(key, "jpeg") {
            Format::Jpeg
        } else if str_eq(key, "png") {
            Format::Png
        } else if str_eq(key, "webp") {
            Format::Webp
        } else if str_eq(key, "gif") {
            Format::Gif
        } else if str_eq(key, "bmp") {
            Format::Bmp
        } else if str_eq(key, "tiff") {
            Format::Tiff
        } else {
            Format::Other
        }
    }

    /// The quality on this format's own scale.
    pub fn native(self, quality: u32) -> (r: u32)
        ensures
            r == native_quality(self, quality),
    {
        let gap: u32 = 100u32.saturating_sub(quality);
        match self {
            Format::Jpeg => hold_within(gap / 3, 2, 31),
            Format::Png => hold_within(gap / 11, 0, 9),
            Format::Webp => quality,
            _ => hold_within(gap / 5, 2, 31),
        }
    }
}

/// `x` held within `lo..=hi`.
fn hold_within(x: u32, lo: u32, hi: u32) -> (r: u32)
    requires
        lo <= hi,
    ensures
        r == clamp(x as int, lo as int, hi as int),
{
    if x < lo {
        lo
    } else if x > hi {
        hi
    } else {
        x
    }
}

/// Appends a copy of `arg` to an argument list.
pub fn push_arg(args: &mut Vec<String>, arg: &str)
    ensures
        views(final(args)@) == views(old(args)@).push(arg@),
{
    let owned: String = String::from_str(arg);
    proof {
        crate::text::lemma_views_push(args@, owned);
    }
    args.push(owned);
}

/// Appends every argument of `more` to `args`.
pub fn extend_args(args: &mut Vec<String>, more: Vec<String>)
    ensures
        views(final(args)@) == views(old(args)@) + views(more@),
{
    let mut i: usize = 0;
    while i < more.len()
        invariant
            i <= more.len(),
            views(args@) == views(old(args)@) + views(more@.take(i as int)),
        decreases more.len() - i,
    {
        let ghost before = views(args@);
        push_arg(args, more[i].as_str());
        assert(views(more@.take(i as int + 1)) =~= views(more@.take(i as int)).push(more@[i as int]@));
        assert(views(args@) =~= views(old(args)@) + views(more@.take(i as int + 1)));
        i = i + 1;
    }
    assert(more@.take(i as int) =~= more@);
}

/// Whether files with the extension `extension` are accepted: `jpg`, `jpeg`,
/// `png`, `webp`, `gif`, `bmp` and `tiff` are, in any mix of capital and small
/// letters.
pub fn is_supported_format(extension: &str) -> (r: bool)
    ensures
        r == supported(extension@),
{
    let key: String = to_ascii_lower(extension);
    match Format::from_key(key.as_str()) {
        Format::Other => false,
        _ => true,
    }
}

/// The format key of the file that `path` names: its extension in lower case.
/// A path without an extension is refused as an unsupported format.
pub fn get_extension(path: &str) -> (r: Result<String, CompressError>)
    ensures
        match r {
            Ok(key) => extension(path@) matches Some(ext) && key@ == ascii_lower(ext),
            Err(e) => extension(path@) is None && e@ == (ErrorView::UnsupportedFormat {
                extension: None,
            }),
        },
{
    let found: Option<String> = match path_file_name(path) {
        Some(name) => split_extension(name.as_str()),
        None => None,
    };
    match found {
        Some(ext) => Ok(to_ascii_lower(ext.as_str())),
        None => Err(CompressError::UnsupportedFormat { extension: None }),
    }
}

/// The transcoder arguments that set the quality, or the lossless mode, of an
/// output in the format that `format` names.
pub fn build_compression_args(format: &str, quality: u32, lossless: bool) -> (args: Vec<String>)
    ensures
        views(args@) == codec_args(format_of(format@), quality, lossless),
{
    let policy: Format = Format::from_key(format);
    let level: String = to_decimal(policy.native(quality) as u128);
    let mut args: Vec<String> = Vec::new();
    assert(views(args@) =~= Seq::<Seq<char>>::empty());
    match policy {
        Format::Jpeg => {
            push_arg(&mut args, "-q:v");
            if lossless {
                push_arg(&mut args, "0");
            } else {
                push_arg(&mut args, level.as_str());
            }
        },
        Format::Png => {
            push_arg(&mut args, "-compression_level");
            if lossless {
                push_arg(&mut args, "0");
            } else {
                push_arg(&mut args, level.as_str());
            }
        },
        Format::Webp => {
            if lossless {
                push_arg(&mut args, "-lossless");
                push_arg(&mut args, "1");
            } else {
                push_arg(&mut args, "-quality");
                push_arg(&mut args, level.as_str());
            }
        },
        Format::Tiff => {
            push_arg(&mut args, "-compression");
            if lossless {
                push_arg(&mut args, "lzw");
            } else {
                push_arg(&mut args, "jpeg");
                push_arg(&mut args, "-q:v");
                push_arg(&mut args, level.as_str());
            }
        },
        _ => {
            push_arg(&mut args, "-q:v");
            push_arg(&mut args, level.as_str());
        },
    }
    assert(views(args@) =~= codec_args(policy, quality, lossless));
    args
}

/// The transcoder arguments that select the output container, and the codec
/// where the container needs one named, for the format that `format` names.
pub fn container_args(format: &str) -> (args: Vec<String>)
    ensures
        views(args@) == container_args_of(format_of(format@)),
{
    let policy: Format = Format::from_key(format);
    let mut args: Vec<String> = Vec::new();
    assert(views(args@) =~= Seq::<Seq<char>>::empty());
    push_arg(&mut args, "-f");
    match policy {
        Format::Gif => {
            push_arg(&mut args, "gif");
        },
        Format::Other => {
            push_arg(&mut args, "image2");
        },
        _ => {
            push_arg(&mut args, "image2");
            push_arg(&mut args, "-c:v");
            match policy {
                Format::Jpeg => push_arg(&mut args, "mjpeg"),
                Format::Png => push_arg(&mut args, "png"),
                Format::Webp => push_arg(&mut args, "libwebp"),
                Format::Bmp => push_arg(&mut args, "bmp"),
                _ => push_arg(&mut args, "tiff"),
            }
        },
    }
    assert(views(args@) =~= container_args_of(policy));
    args
}

} // verus!
