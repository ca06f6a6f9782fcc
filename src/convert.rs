//! Routing of media conversions: which converter applies, with which
//! arguments, and where the result goes.  Reading and writing the files is
//! left to the caller.
use vstd::prelude::*;
use crate::text::{chars_of, push_text, same_text, string_views};

verus! {

/// The lower-case form of a text.
pub uninterp spec fn lower_of(s: Seq<char>) -> Seq<char>;

/// Relies on `str::to_lowercase`: the result depends on the characters of
/// `s` alone.
#[verifier::external_body]
fn lowercase(s: &str) -> (r: String)
    ensures
        r@ == lower_of(s@),
{
    s.to_lowercase()
}

/// A path with its extension replaced by (or extended with) `ext`.
pub uninterp spec fn with_extension_of(path: Seq<char>, ext: Seq<char>) -> Seq<char>;

/// `s` holds no path separator.
pub open spec fn no_separator(s: Seq<char>) -> bool {
    forall|i: int| 0 <= i < s.len() ==> s[i] != '/' && s[i] != '\\'
}

/// Whether `s` holds a path separator.
pub fn has_separator(s: &str) -> (r: bool)
    ensures
        r == !no_separator(s@),
{
    let c = chars_of(s);
    let n = c.len();
    let mut i: usize = 0;
    while i < n
        invariant
            n == c@.len(),
            c@ == s@,
            i <= n,
            forall|j: int| 0 <= j < i ==> c@[j] != '/' && c@[j] != '\\',
        decreases n - i,
    {
        if c[i] == '/' || c[i] == '\\' {
            return true;
        }
        i = i + 1;
    }
    false
}

/// Relies on `Path::with_extension`: the new path depends on the path and
/// the extension alone (under the target platform's path syntax).  It
/// panics on an extension that holds a path separator.
#[verifier::external_body]
fn with_extension(path: &str, ext: &str) -> (r: String)
    requires
        no_separator(ext@),
    ensures
        r@ == with_extension_of(path@, ext@),
{
    std::path::Path::new(path).with_extension(ext).to_string_lossy().into_owned()
}

/// The extension of a path, if it has one.
pub uninterp spec fn extension_of(path: Seq<char>) -> Option<Seq<char>>;

/// Relies on `Path::extension`: the extension depends on the path alone
/// (under the target platform's path syntax).
#[verifier::external_body]
fn extension(path: &str) -> (r: Option<String>)
    ensures
        match r {
            Some(e) => extension_of(path@) == Some(e@),
            None => extension_of(path@) is None,
        },
{
    std::path::Path::new(path).extension().and_then(|e| e.to_str()).map(String::from)
}

/// The lower-case extension of a path, empty when it has none.
pub open spec fn lower_extension(path: Seq<char>) -> Seq<char> {
    match extension_of(path) {
        Some(e) => lower_of(e),
        None => Seq::empty(),
    }
}

/// Why a conversion cannot be made.
pub enum ConvertError {
    /// The input file does not exist.
    InputNotFound,
    /// The output format holds a path separator.
    InvalidFormat { format: String },
    /// The image format is not one that can be written.
    UnsupportedFormat { format: String },
    /// PDF pages cannot be turned into images here.
    PdfToImage,
    /// No conversion from this kind of file to this format.
    UnsupportedConversion { from: String, to: String },
}

/// A run of ffmpeg: program, arguments, and the file it writes.
pub struct FfmpegCommand {
    pub program: String,
    pub args: Vec<String>,
    pub output_path: String,
}

/// Media conversion through the ffmpeg program.
pub struct FFmpeg {
    pub exe_path: String,
}

pub const FFMPEG_PROGRAM: &'static str = "ffmpeg";

/// The codec arguments for an output format; unknown formats copy streams.
pub open spec fn ffmpeg_format_args(f: Seq<char>) -> Seq<Seq<char>> {
    if f == "mp3"@ {
        seq!["-vn"@, "-acodec"@, "libmp3lame"@, "-q:a"@, "0"@]
    } else if f == "m4a"@ || f == "aac"@ {
        seq!["-vn"@, "-acodec"@, "aac"@, "-b:a"@, "256k"@]
    } else if f == "wav"@ {
        seq!["-vn"@, "-acodec"@, "pcm_s16le"@]
    } else if f == "flac"@ {
        seq!["-vn"@, "-acodec"@, "flac"@]
    } else if f == "mp4"@ {
        seq!["-c:v"@, "libx264"@, "-c:a"@, "aac"@, "-preset"@, "fast"@]
    } else if f == "mkv"@ {
        seq!["-c:v"@, "copy"@, "-c:a"@, "copy"@]
    } else if f == "webm"@ {
        seq!["-c:v"@, "libvpx-vp9"@, "-c:a"@, "libopus"@, "-b:v"@, "2M"@]
    } else {
        seq!["-c"@, "copy"@]
    }
}

/// The full ffmpeg argument list: input, overwrite, codecs, output.
pub open spec fn ffmpeg_args(input: Seq<char>, f: Seq<char>, output: Seq<char>) -> Seq<Seq<char>> {
    seq!["-i"@, input, "-y"@] + ffmpeg_format_args(f) + seq![output]
}

impl FFmpeg {
    /// A converter that runs the bundled program when one was found, and
    /// `ffmpeg` from the search path otherwise.
    pub fn new(bundled: Option<String>) -> (r: Self)
        ensures
            match bundled {
                Some(p) => r.exe_path@ == p@,
                None => r.exe_path@ == FFMPEG_PROGRAM@,
            },
    {
        match bundled {
            Some(p) => FFmpeg { exe_path: p },
            None => FFmpeg { exe_path: FFMPEG_PROGRAM.to_owned() },
        }
    }

    /// Where the conversion of `input_path` to `output_format` is written;
    /// a format that holds a path separator is refused.
    pub fn output_path(&self, input_path: &str, output_format: &str) -> (r: Result<String, ConvertError>)
        ensures
            no_separator(output_format@) ==> r is Ok && r->Ok_0@ == with_extension_of(
                input_path@,
                output_format@,
            ),
            !no_separator(output_format@) ==> r is Err && match r->Err_0 {
                ConvertError::InvalidFormat { format } => format@ == output_format@,
                _ => false,
            },
    {
        if has_separator(output_format) {
            return Err(ConvertError::InvalidFormat { format: output_format.to_owned() });
        }
        Ok(with_extension(input_path, output_format))
    }

    /// The arguments that convert `input_path` to `output_format`, written
    /// to `output_path`.
    pub fn conversion_args(&self, input_path: &str, output_format: &str, output_path: &str) -> (r: Vec<
        String,
    >)
        ensures
            string_views(r@) == ffmpeg_args(input_path@, output_format@, output_path@),
    {
        let mut args: Vec<String> = Vec::new();
        push_text(&mut args, "-i");
        push_text(&mut args, input_path);
        push_text(&mut args, "-y");
        let ghost head = string_views(args@);
        let f = output_format;
        if same_text(f, "mp3") {
            push_text(&mut args, "-vn");
            push_text(&mut args, "-acodec");
            push_text(&mut args, "libmp3lame");
            push_text(&mut args, "-q:a");
            push_text(&mut args, "0");
        } else if same_text(f, "m4a") || same_text(f, "aac") {
            push_text(&mut args, "-vn");
            push_text(&mut args, "-acodec");
            push_text(&mut args, "aac");
            push_text(&mut args, "-b:a");
            push_text(&mut args, "256k");
        } else if same_text(f, "wav") {
            push_text(&mut args, "-vn");
            push_text(&mut args, "-acodec");
            push_text(&mut args, "pcm_s16le");
        } else if same_text(f, "flac") {
            push_text(&mut args, "-vn");
            push_text(&mut args, "-acodec");
            push_text(&mut args, "flac");
        } else if same_text(f, "mp4") {
            push_text(&mut args, "-c:v");
            push_text(&mut args, "libx264");
            push_text(&mut args, "-c:a");
            push_text(&mut args, "aac");
            push_text(&mut args, "-preset");
            push_text(&mut args, "fast");
        } else if same_text(f, "mkv") {
            push_text(&mut args, "-c:v");
            push_text(&mut args, "copy");
            push_text(&mut args, "-c:a");
            push_text(&mut args, "copy");
        } else if same_text(f, "webm") {
            push_text(&mut args, "-c:v");
            push_text(&mut args, "libvpx-vp9");
            push_text(&mut args, "-c:a");
            push_text(&mut args, "libopus");
            push_text(&mut args, "-b:v");
            push_text(&mut args, "2M");
        } else {
            push_text(&mut args, "-c");
            push_text(&mut args, "copy");
        }
        assert(string_views(args@) =~= head + ffmpeg_format_args(output_format@));
        push_text(&mut args, output_path);
        assert(string_views(args@) =~= ffmpeg_args(input_path@, output_format@, output_path@));
        args
    }

    /// The run of ffmpeg that converts `input_path` to `output_format`,
    /// writing beside the input under the format's extension; a format that
    /// holds a path separator is refused.
    pub fn convert(&self, input_path: &str, output_format: &str) -> (r: Result<FfmpegCommand, ConvertError>)
        ensures
            no_separator(output_format@) ==> r is Ok && r->Ok_0.program@ == self.exe_path@
                && r->Ok_0.output_path@ == with_extension_of(input_path@, output_format@)
                && string_views(r->Ok_0.args@) == ffmpeg_args(
                input_path@,
                output_format@,
                r->Ok_0.output_path@,
            ),
            !no_separator(output_format@) ==> r is Err && match r->Err_0 {
                ConvertError::InvalidFormat { format } => format@ == output_format@,
                _ => false,
            },
    {
        let output_path = match self.output_path(input_path, output_format) {
            Ok(p) => p,
            Err(e) => return Err(e),
        };
        let args = self.conversion_args(input_path, output_format, output_path.as_str());
        Ok(FfmpegCommand { program: self.exe_path.clone(), args, output_path })
    }
}

/// An image format that can be written.
#[derive(PartialEq, Eq, Structural, Clone, Copy, Debug)]
pub enum ImageKind {
    Png,
    Jpeg,
    WebP,
    Gif,
    Bmp,
    Ico,
    Tiff,
}

/// The image format that a lower-case format name selects.
pub open spec fn image_kind_of(f: Seq<char>) -> Option<ImageKind> {
    if f == "png"@ {
        Some(ImageKind::Png)
    } else if f == "jpg"@ || f == "jpeg"@ {
        Some(ImageKind::Jpeg)
    } else if f == "webp"@ {
        Some(ImageKind::WebP)
    } else if f == "gif"@ {
        Some(ImageKind::Gif)
    } else if f == "bmp"@ {
        Some(ImageKind::Bmp)
    } else if f == "ico"@ {
        Some(ImageKind::Ico)
    } else if f == "tiff"@ {
        Some(ImageKind::Tiff)
    } else {
        None
    }
}

/// The image format named by the lower-case name `f`, if it can be written.
pub fn image_kind(f: &str) -> (r: Option<ImageKind>)
    ensures
        r == image_kind_of(f@),
{
    if same_text(f, "png") {
        Some(ImageKind::Png)
    } else if same_text(f, "jpg") || same_text(f, "jpeg") {
        Some(ImageKind::Jpeg)
    } else if same_text(f, "webp") {
        Some(ImageKind::WebP)
    } else if same_text(f, "gif") {
        Some(ImageKind::Gif)
    } else if same_text(f, "bmp") {
        Some(ImageKind::Bmp)
    } else if same_text(f, "ico") {
        Some(ImageKind::Ico)
    } else if same_text(f, "tiff") {
        Some(ImageKind::Tiff)
    } else {
        None
    }
}

/// How an image is to be written: its format, its path, and whether it is
/// first scaled to an icon's size.
pub struct ImagePlan {
    pub kind: ImageKind,
    pub output_path: String,
    pub resize_to_icon: bool,
}

/// Conversion between image formats.
pub struct ImageConverter;

impl ImageConverter {
    pub fn new() -> (r: Self) {
        ImageConverter
    }

    /// How to convert `input_path` to `output_format` (in any case): the
    /// format its lower-case name selects, written beside the input under
    /// that extension; an icon is scaled first.
    pub fn convert(&self, input_path: &str, output_format: &str) -> (r: Result<ImagePlan, ConvertError>)
        ensures
            match image_kind_of(lower_of(output_format@)) {
                Some(k) => r is Ok && r->Ok_0.kind == k && r->Ok_0.output_path@ == with_extension_of(
                    input_path@,
                    lower_of(output_format@),
                ) && r->Ok_0.resize_to_icon == (k == ImageKind::Ico),
                None => r is Err && match r->Err_0 {
                    ConvertError::UnsupportedFormat { format } => format@ == output_format@,
                    _ => false,
                },
            },
    {
        let lower = lowercase(output_format);
        match image_kind(lower.as_str()) {
            Some(kind) => {
                proof {
                    reveal_strlit("png");
                    reveal_strlit("jpg");
                    reveal_strlit("jpeg");
                    reveal_strlit("webp");
                    reveal_strlit("gif");
                    reveal_strlit("bmp");
                    reveal_strlit("ico");
                    reveal_strlit("tiff");
                }
                assert(no_separator(lower@));
                let output_path = with_extension(input_path, lower.as_str());
                Ok(ImagePlan { kind, output_path, resize_to_icon: kind == ImageKind::Ico })
            },
            None => Err(ConvertError::UnsupportedFormat { format: output_format.to_owned() }),
        }
    }
}

/// What a document conversion amounts to.
pub ghost enum DocumentRoute {
    ImageToPdf,
    PdfToImage,
    Unsupported,
}

/// The route from a lower-case input extension to a lower-case format.
pub open spec fn document_route(ext: Seq<char>, f: Seq<char>) -> DocumentRoute {
    if (ext == "png"@ || ext == "jpg"@ || ext == "jpeg"@ || ext == "webp"@ || ext == "bmp"@) && f
        == "pdf"@ {
        DocumentRoute::ImageToPdf
    } else if ext == "pdf"@ && (f == "png"@ || f == "jpg"@ || f == "jpeg"@) {
        DocumentRoute::PdfToImage
    } else {
        DocumentRoute::Unsupported
    }
}

/// Conversion of documents: images into a one-page PDF.
pub struct DocumentConverter;

impl DocumentConverter {
    pub fn new() -> (r: Self) {
        DocumentConverter
    }

    /// The route for a lower-case extension `ext` and lower-case format `f`:
    /// `Ok(())` when an image becomes a PDF, the matching error otherwise.
    pub fn route(&self, ext: &str, f: &str, output_format: &str) -> (r: Result<(), ConvertError>)
        ensures
            match document_route(ext@, f@) {
                DocumentRoute::ImageToPdf => r is Ok,
                DocumentRoute::PdfToImage => r is Err && r->Err_0 is PdfToImage,
                DocumentRoute::Unsupported => r is Err && match r->Err_0 {
                    ConvertError::UnsupportedConversion { from, to } => from@ == ext@ && to@
                        == output_format@,
                    _ => false,
                },
            },
    {
        let image_in = same_text(ext, "png") || same_text(ext, "jpg") || same_text(ext, "jpeg")
            || same_text(ext, "webp") || same_text(ext, "bmp");
        if image_in && same_text(f, "pdf") {
            Ok(())
        } else if same_text(ext, "pdf") && (same_text(f, "png") || same_text(f, "jpg") || same_text(
            f,
            "jpeg",
        )) {
            Err(ConvertError::PdfToImage)
        } else {
            Err(ConvertError::UnsupportedConversion { from: ext.to_owned(), to: output_format.to_owned() })
        }
    }

    /// Decides the conversion of `input_path` to `output_format`: for an
    /// image turned into a PDF, the path of the PDF beside the input; the
    /// error otherwise.  Extension and format are compared in lower case.
    pub fn convert(&self, input_path: &str, output_format: &str) -> (r: Result<String, ConvertError>)
        ensures
            match document_route(lower_extension(input_path@), lower_of(output_format@)) {
                DocumentRoute::ImageToPdf => r is Ok && r->Ok_0@ == with_extension_of(
                    input_path@,
                    "pdf"@,
                ),
                DocumentRoute::PdfToImage => r is Err && r->Err_0 is PdfToImage,
                DocumentRoute::Unsupported => r is Err && match r->Err_0 {
                    ConvertError::UnsupportedConversion { from, to } => from@ == lower_extension(
                        input_path@,
                    ) && to@ == output_format@,
                    _ => false,
                },
            },
    {
        let ext = match extension(input_path) {
            Some(e) => lowercase(e.as_str()),
            None => String::new(),
        };
        let f = lowercase(output_format);
        match self.route(ext.as_str(), f.as_str(), output_format) {
            Ok(()) => {
                proof {
                    reveal_strlit("pdf");
                }
                Ok(with_extension(input_path, "pdf"))
            },
            Err(e) => Err(e),
        }
    }
}

} // verus!
