//! The argument list of one transcoder run: input, scale filter, codec
//! arguments, container arguments, output, in that order.

use vstd::prelude::*;
use vstd::string::*;
use crate::formats::{
    build_compression_args, codec_args, container_args, container_args_of, extend_args,
    format_of, push_arg,
};
use crate::options::CompressOptions;
use crate::text::{decimal, to_decimal, views};

verus! {

/// A filter that fits the picture within `width` by `height`, keeping its
/// proportions and never enlarging it.
pub open spec fn fit_within(width: u32, height: u32) -> Seq<char> {
    "scale='min("@ + decimal(width as nat) + ",iw)':'min("@ + decimal(height as nat)
        + ",ih)':force_original_aspect_ratio=1"@
}

/// A filter that scales the picture to exactly `width` by `height`.
pub open spec fn exact_size(width: u32, height: u32) -> Seq<char> {
    "scale="@ + decimal(width as nat) + ":"@ + decimal(height as nat)
}

/// A filter that brings the width down to `width` where it is larger, the
/// height following.
pub open spec fn fit_width(width: u32) -> Seq<char> {
    "scale='min("@ + decimal(width as nat) + ",iw)':-1:force_original_aspect_ratio=1"@
}

/// A filter that brings the height down to `height` where it is larger, the
/// width following.
pub open spec fn fit_height(height: u32) -> Seq<char> {
    "scale=-1:'min("@ + decimal(height as nat) + ",ih)':force_original_aspect_ratio=1"@
}

/// The scale filter that `options` ask for, if they ask for one. With both
/// limits the picture is fitted within them, or scaled to exactly that size
/// where proportions need not be kept; with one limit that axis is brought
/// down to fit; with none there is no filter.
pub open spec fn scale_filter_of(options: CompressOptions) -> Option<Seq<char>> {
    match (options.max_width, options.max_height) {
        (Some(width), Some(height)) => if options.keeps_ratio() {
            Some(fit_within(width, height))
        } else {
            Some(exact_size(width, height))
        },
        (Some(width), None) => Some(fit_width(width)),
        (None, Some(height)) => Some(fit_height(height)),
        (None, None) => None,
    }
}

/// The arguments that carry the scale filter: none without a filter.
pub open spec fn scale_args(options: CompressOptions) -> Seq<Seq<char>> {
    match scale_filter_of(options) {
        Some(filter) => seq!["-vf"@, filter],
        None => Seq::empty(),
    }
}

/// The whole argument list of the run that compresses `input` into `output`.
pub open spec fn invocation(
    input: Seq<char>,
    output: Seq<char>,
    format: Seq<char>,
    options: CompressOptions,
) -> Seq<Seq<char>> {
    seq!["-i"@, input] + scale_args(options) + codec_args(
        format_of(format),
        options.quality,
        options.wants_lossless(),
    ) + container_args_of(format_of(format)) + seq![output]
}

/// The input is named first and the output last, whatever lies between.
pub proof fn lemma_invocation_ends(
    input: Seq<char>,
    output: Seq<char>,
    format: Seq<char>,
    options: CompressOptions,
)
    ensures
        invocation(input, output, format, options).len() >= 3,
        invocation(input, output, format, options)[0] == "-i"@,
        invocation(input, output, format, options)[1] == input,
        invocation(input, output, format, options).last() == output,
{
}

/// A filter is passed exactly when a limit is set.
pub proof fn lemma_filter_iff_limit(options: CompressOptions)
    ensures
        scale_filter_of(options) is Some <==> (options.max_width is Some || options.max_height
            is Some),
{
}

/// The scale filter that `options` ask for, if they ask for one.
pub fn scale_filter(options: &CompressOptions) -> (r: Option<String>)
    ensures
        match r {
            Some(filter) => scale_filter_of(*options) == Some(filter@),
            None => scale_filter_of(*options) is None,
        },
{
    match (options.max_width, options.max_height) {
        (Some(width), Some(height)) => {
            let w: String = to_decimal(width as u128);
            let h: String = to_decimal(height as u128);
            if options.keeps_aspect_ratio() {
                let mut r: String = String::from_str("scale='min(");
                r.append(w.as_str());
                r.append(",iw)':'min(");
                r.append(h.as_str());
                r.append(",ih)':force_original_aspect_ratio=1");
                Some(r)
            } else {
                let mut r: String = String::from_str("scale=");
                r.append(w.as_str());
                r.append(":");
                r.append(h.as_str());
                Some(r)
            }
        },
        (Some(width), None) => {
            let w: String = to_decimal(width as u128);
            let mut r: String = String::from_str("scale='min(");
            r.append(w.as_str());
            r.append(",iw)':-1:force_original_aspect_ratio=1");
            Some(r)
        },
        (None, Some(height)) => {
            let h: String = to_decimal(height as u128);
            let mut r: String = String::from_str("scale=-1:'min(");
            r.append(h.as_str());
            r.append(",ih)':force_original_aspect_ratio=1");
            Some(r)
        },
        (None, None) => None,
    }
}

/// The whole argument list of the transcoder run that compresses the file at
/// `input_path`, whose format key is `format`, into `output_path`.
pub fn transcoder_args(
    input_path: &str,
    output_path: &str,
    format: &str,
    options: &CompressOptions,
) -> (args: Vec<String>)
    ensures
        views(args@) == invocation(input_path@, output_path@, format@, *options),
{
    let mut args: Vec<String> = Vec::new();
    assert(views(args@) =~= Seq::<Seq<char>>::empty());
    push_arg(&mut args, "-i");
    push_arg(&mut args, input_path);
    match scale_filter(options) {
        Some(filter) => {
            push_arg(&mut args, "-vf");
            push_arg(&mut args, filter.as_str());
        },
        None => {},
    }
    assert(views(args@) =~= seq!["-i"@, input_path@] + scale_args(*options));
    extend_args(
        &mut args,
        build_compression_args(format, options.quality, options.is_lossless()),
    );
    extend_args(&mut args, container_args(format));
    push_arg(&mut args, output_path);
    args
}

} // verus!
