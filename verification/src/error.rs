//! Why a compression did not produce a result.

use vstd::prelude::*;
use vstd::string::*;

verus! {

/// The view of an optional string.
pub open spec fn opt_view(o: Option<String>) -> Option<Seq<char>> {
    match o {
        Some(s) => Some(s@),
        None => None,
    }
}

/// The reason one compression ended without a result. Each is final for the
/// item it belongs to; nothing is retried.
#[derive(Debug)]
pub enum CompressError {
    /// Nothing exists at the input path.
    InputNotFound { path: String },
    /// The input's extension is not a supported format (`Some`, lower-cased),
    /// or the input path has no extension at all (`None`).
    UnsupportedFormat { extension: Option<String> },
    /// The output directory does not exist (`Some`), or none was given
    /// (`None`).
    OutputDirInvalid { dir: Option<String> },
    /// The transcoder ran and reported failure; `message` is what it wrote to
    /// its error stream.
    TranscodeFailed { message: String },
    /// The transcoder could not be started, or a size or the dimensions could
    /// not be read afterwards; `message` is the host's description.
    IoFailure { message: String },
}

/// What a `CompressError` holds, as mathematical text.
pub enum ErrorView {
    InputNotFound { path: Seq<char> },
    UnsupportedFormat { extension: Option<Seq<char>> },
    OutputDirInvalid { dir: Option<Seq<char>> },
    TranscodeFailed { message: Seq<char> },
    IoFailure { message: Seq<char> },
}

impl View for CompressError {
    type V = ErrorView;

    open spec fn view(&self) -> ErrorView {
        match *self {
            CompressError::InputNotFound { path } => ErrorView::InputNotFound { path: path@ },
            CompressError::UnsupportedFormat { extension } => ErrorView::UnsupportedFormat {
                extension: opt_view(extension),
            },
            CompressError::OutputDirInvalid { dir } => ErrorView::OutputDirInvalid {
                dir: opt_view(dir),
            },
            CompressError::TranscodeFailed { message } => ErrorView::TranscodeFailed {
                message: message@,
            },
            CompressError::IoFailure { message } => ErrorView::IoFailure { message: message@ },
        }
    }
}

/// `path` between double quotes.
pub open spec fn quoted(path: Seq<char>) -> Seq<char> {
    seq!['"'] + path + seq!['"']
}

/// The text shown to a person for an error: what went wrong, followed by the
/// path or the cause it concerns.
pub open spec fn error_message(e: ErrorView) -> Seq<char> {
    match e {
        ErrorView::InputNotFound { path } => "输入文件不存在: "@ + quoted(path),
        ErrorView::UnsupportedFormat { extension: Some(ext) } => "不支持的图片格式: "@ + ext,
        ErrorView::UnsupportedFormat { extension: None } => "无法获取文件扩展名"@,
        ErrorView::OutputDirInvalid { dir: Some(dir) } => "输出目录不存在: "@ + quoted(dir),
        ErrorView::OutputDirInvalid { dir: None } => "请选择输出目录"@,
        ErrorView::TranscodeFailed { message } => "FFmpeg 压缩失败: "@ + message,
        ErrorView::IoFailure { message } => message,
    }
}

/// Whether `part` occurs in `whole` as a run of consecutive characters.
pub open spec fn occurs_in(part: Seq<char>, whole: Seq<char>) -> bool {
    exists|i: int|
        0 <= i <= whole.len() - part.len() && #[trigger] whole.subrange(i, i + part.len())
            == part
}

/// `part` occurs in any text built around it.
pub proof fn lemma_occurs_between(before: Seq<char>, part: Seq<char>, after: Seq<char>)
    ensures
        occurs_in(part, before + part + after),
{
    let whole = before + part + after;
    let i = before.len() as int;
    assert(whole.subrange(i, i + part.len()) =~= part);
}

/// The message of an error holds, unchanged, the path or the cause that the
/// error carries.
pub proof fn lemma_message_names_its_subject(e: ErrorView)
    ensures
        match e {
            ErrorView::InputNotFound { path } => occurs_in(path, error_message(e)),
            ErrorView::UnsupportedFormat { extension: Some(ext) } => occurs_in(
                ext,
                error_message(e),
            ),
            ErrorView::OutputDirInvalid { dir: Some(dir) } => occurs_in(dir, error_message(e)),
            ErrorView::TranscodeFailed { message } => occurs_in(message, error_message(e)),
            ErrorView::IoFailure { message } => occurs_in(message, error_message(e)),
            _ => true,
        },
{
    let empty = Seq::<char>::empty();
    match e {
        ErrorView::InputNotFound { path } => {
            lemma_occurs_between("输入文件不存在: "@ + seq!['"'], path, seq!['"']);
            assert(error_message(e) =~= "输入文件不存在: "@ + seq!['"'] + path + seq!['"']);
        },
        ErrorView::UnsupportedFormat { extension: Some(ext) } => {
            lemma_occurs_between("不支持的图片格式: "@, ext, empty);
            assert(error_message(e) =~= "不支持的图片格式: "@ + ext + empty);
        },
        ErrorView::OutputDirInvalid { dir: Some(dir) } => {
            lemma_occurs_between("输出目录不存在: "@ + seq!['"'], dir, seq!['"']);
            assert(error_message(e) =~= "输出目录不存在: "@ + seq!['"'] + dir + seq!['"']);
        },
        ErrorView::TranscodeFailed { message } => {
            lemma_occurs_between("FFmpeg 压缩失败: "@, message, empty);
            assert(error_message(e) =~= "FFmpeg 压缩失败: "@ + message + empty);
        },
        ErrorView::IoFailure { message } => {
            lemma_occurs_between(empty, message, empty);
            assert(error_message(e) =~= empty + message + empty);
        },
        _ => {},
    }
}

/// `path` between double quotes, appended to `text`.
pub fn append_quoted(text: &mut String, path: &str)
    ensures
        final(text)@ == old(text)@ + quoted(path@),
{
    proof {
        reveal_strlit("\"");
    }
    text.append("\"");
    text.append(path);
    text.append("\"");
    assert(final(text)@ =~= old(text)@ + quoted(path@));
}

impl CompressError {
    /// The text shown to a person for this error.
    pub fn message(&self) -> (r: String)
        ensures
            r@ == error_message(self@),
    {
        match self {
            CompressError::InputNotFound { path } => {
                let mut r: String = String::from_str("输入文件不存在: ");
                append_quoted(&mut r, path.as_str());
                r
            },
            CompressError::UnsupportedFormat { extension: Some(ext) } => {
                let mut r: String = String::from_str("不支持的图片格式: ");
                r.append(ext.as_str());
                r
            },
            CompressError::UnsupportedFormat { extension: None } => String::from_str(
                "无法获取文件扩展名",
            ),
            CompressError::OutputDirInvalid { dir: Some(dir) } => {
                let mut r: String = String::from_str("输出目录不存在: ");
                append_quoted(&mut r, dir.as_str());
                r
            },
            CompressError::OutputDirInvalid { dir: None } => String::from_str("请选择输出目录"),
            CompressError::TranscodeFailed { message } => {
                let mut r: String = String::from_str("FFmpeg 压缩失败: ");
                r.append(message.as_str());
                r
            },
            CompressError::IoFailure { message } => message.clone(),
        }
    }
}

} // verus!
