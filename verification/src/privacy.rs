//! Attachment metadata: file type detection, inspection of JPEG, PNG and
//! PDF metadata, and stripping it from JPEG and PNG images before upload.
//! Reading and writing the files is left to the caller; these functions work
//! on the bytes.

use vstd::prelude::*;
use vstd::string::*;
use crate::images::{MetadataScan, ScanResult, empty_scan, holds_scan, inspect_jpeg, inspect_png, jpeg_file_scan, png_file_scan};
use crate::text::{decimal, joined, lowercase, lowercase_of, owned, push_decimal, same_text};
use crate::types::{opt_string_view, AppError};

verus! {

/// Why metadata could not be inspected or stripped.
#[derive(Debug)]
pub enum MetadataError {
    Io(String),
    ImageProcessing(String),
    UnsupportedFileType(String),
}

/// Appends a label to a list of labels.
pub(crate) fn push_label(fields: &mut Vec<String>, label: String)
    ensures
        strings_view(final(fields)@) == strings_view(old(fields)@).push(label@),
{
    fields.push(label);
    assert(strings_view(fields@) =~= strings_view(old(fields)@).push(label@));
}

/// How a metadata error reads.
pub open spec fn metadata_error_message(e: MetadataError) -> Seq<char> {
    match e {
        MetadataError::Io(m) => "IO error: "@ + m@,
        MetadataError::ImageProcessing(m) => "Image processing error: "@ + m@,
        MetadataError::UnsupportedFileType(m) => "Unsupported file type: "@ + m@,
    }
}

impl MetadataError {
    /// The error as it is shown to the user.
    pub fn message(&self) -> (r: String)
        ensures
            r@ == metadata_error_message(*self),
    {
        match self {
            MetadataError::Io(m) => joined("IO error: ", m.as_str()),
            MetadataError::ImageProcessing(m) => joined("Image processing error: ", m.as_str()),
            MetadataError::UnsupportedFileType(m) => joined("Unsupported file type: ", m.as_str()),
        }
    }
}

/// How a failed strip request is reported to the user interface.
pub fn strip_failure(e: &MetadataError) -> (r: AppError)
    ensures
        r matches AppError::Internal(m) && m@ == "Metadata strip failed: "@
            + metadata_error_message(*e),
{
    let detail = e.message();
    AppError::Internal(joined("Metadata strip failed: ", detail.as_str()))
}

/// How a failed inspection request is reported to the user interface.
pub fn inspect_failure(e: &MetadataError) -> (r: AppError)
    ensures
        r matches AppError::Internal(m) && m@ == "Metadata inspect failed: "@
            + metadata_error_message(*e),
{
    let detail = e.message();
    AppError::Internal(joined("Metadata inspect failed: ", detail.as_str()))
}

/// What `inspect_metadata` found in a file.
#[derive(Debug, Clone)]
pub struct MetadataInfo {
    pub file_path: String,
    pub file_type: String,
    pub has_exif: bool,
    pub has_gps: bool,
    pub metadata_size_bytes: usize,
    pub fields_found: Vec<String>,
}

/// What stripping did to a file.
#[derive(Debug, Clone)]
pub struct StripResult {
    pub file_path: String,
    pub original_size: u64,
    pub stripped_size: u64,
    pub bytes_removed: u64,
    pub fields_removed: Vec<String>,
}

/// A stripped file: the report and the new contents to write back.
#[derive(Debug)]
pub struct StrippedFile {
    pub result: StripResult,
    pub contents: Vec<u8>,
}

/// The views of a list of strings.
pub open spec fn strings_view(v: Seq<String>) -> Seq<Seq<char>> {
    v.map_values(|s: String| s@)
}

// ---------------------------------------------------------------------------
// Paths and file types

/// What `Path::extension` gives for the path `p`, as text.
pub uninterp spec fn path_extension_of(p: Seq<char>) -> Option<Seq<char>>;

/// What `Path::file_stem` gives for the path `p`, as text.
pub uninterp spec fn path_file_stem_of(p: Seq<char>) -> Option<Seq<char>>;

/// What `Path::with_file_name` gives for the path `p` and the name `name`.
pub uninterp spec fn path_with_file_name_of(p: Seq<char>, name: Seq<char>) -> Seq<char>;

/// `Path::extension` of the path `p` (the part of its file name after the
/// last `.`), as a string. Claims only that the result is a function of `p`.
#[verifier::external_body]
fn path_extension(p: &str) -> (r: Option<String>)
    ensures
        opt_string_view(r) == path_extension_of(p@),
{
    match std::path::Path::new(p).extension() {
        Some(e) => e.to_str().map(String::from),
        None => None,
    }
}

/// `Path::file_stem` of the path `p` (its file name without the extension),
/// as a string. Claims only that the result is a function of `p`.
#[verifier::external_body]
fn path_file_stem(p: &str) -> (r: Option<String>)
    ensures
        opt_string_view(r) == path_file_stem_of(p@),
{
    match std::path::Path::new(p).file_stem() {
        Some(e) => e.to_str().map(String::from),
        None => None,
    }
}

/// `Path::with_file_name`: the path `p` with its file name replaced by
/// `name`. Claims only that the result is a function of `p` and `name`.
#[verifier::external_body]
fn path_with_file_name(p: &str, name: &str) -> (r: String)
    ensures
        r@ == path_with_file_name_of(p@, name@),
{
    std::path::Path::new(p).with_file_name(name).to_string_lossy().into_owned()
}

/// The file type named by a lowercased extension.
pub open spec fn file_type_for(ext: Seq<char>) -> Seq<char> {
    if ext == "jpg"@ || ext == "jpeg"@ {
        "jpeg"@
    } else if ext == "png"@ {
        "png"@
    } else if ext == "webp"@ {
        "webp"@
    } else if ext == "gif"@ {
        "gif"@
    } else if ext == "pdf"@ {
        "pdf"@
    } else if ext == "mp4"@ || ext == "mov"@ || ext == "avi"@ || ext == "mkv"@ || ext == "webm"@ {
        "video"@
    } else if ext == "mp3"@ || ext == "ogg"@ || ext == "flac"@ || ext == "wav"@ || ext == "m4a"@ {
        "audio"@
    } else {
        ext
    }
}

/// The file type of `path`, from its extension compared case-insensitively;
/// `None` without an extension.
pub open spec fn file_type_of(path: Seq<char>) -> Option<Seq<char>> {
    match path_extension_of(path) {
        Some(ext) => Some(file_type_for(lowercase_of(ext))),
        None => None,
    }
}

/// The file type named by the lowercased extension `ext`: `jpeg`, `png`,
/// `webp`, `gif`, `pdf`, `video`, `audio`, or the extension itself.
pub fn file_type_for_extension(ext: &str) -> (r: String)
    ensures
        r@ == file_type_for(ext@),
{
    if same_text(ext, "jpg") || same_text(ext, "jpeg") {
        owned("jpeg")
    } else if same_text(ext, "png") {
        owned("png")
    } else if same_text(ext, "webp") {
        owned("webp")
    } else if same_text(ext, "gif") {
        owned("gif")
    } else if same_text(ext, "pdf") {
        owned("pdf")
    } else if same_text(ext, "mp4") || same_text(ext, "mov") || same_text(ext, "avi") || same_text(
        ext,
        "mkv",
    ) || same_text(ext, "webm") {
        owned("video")
    } else if same_text(ext, "mp3") || same_text(ext, "ogg") || same_text(ext, "flac") || same_text(
        ext,
        "wav",
    ) || same_text(ext, "m4a") {
        owned("audio")
    } else {
        owned(ext)
    }
}

/// The file type of `path`, judged by its extension.
pub fn detect_file_type(path: &str) -> (r: Option<String>)
    ensures
        opt_string_view(r) == file_type_of(path@),
{
    match path_extension(path) {
        Some(ext) => {
            let lower = lowercase(ext.as_str());
            Some(file_type_for_extension(lower.as_str()))
        },
        None => None,
    }
}

/// The name of the temporary file written next to a file being stripped:
/// `<stem>.whatnull-stripped.<extension>`, or without the extension when
/// there is none; `whatnull` stands in for a missing stem.
pub open spec fn sibling_name(stem: Option<Seq<char>>, ext: Option<Seq<char>>) -> Seq<char> {
    let s = match stem {
        Some(v) => v,
        None => "whatnull"@,
    };
    match ext {
        Some(e) => s + ".whatnull-stripped."@ + e,
        None => s + ".whatnull-stripped"@,
    }
}

/// The temporary file name for a file with this stem and extension.
pub fn sibling_file_name(stem: Option<String>, ext: Option<String>) -> (r: String)
    ensures
        r@ == sibling_name(opt_string_view(stem), opt_string_view(ext)),
{
    let mut name = match stem {
        Some(s) => s,
        None => owned("whatnull"),
    };
    match ext {
        Some(e) => {
            name.append(".whatnull-stripped.");
            name.append(e.as_str());
        },
        None => {
            name.append(".whatnull-stripped");
        },
    }
    name
}

/// Where the stripped copy of `path` is written before it replaces `path`:
/// a sibling file that keeps the container extension.
pub fn sibling_output_path(path: &str) -> (r: String)
    ensures
        r@ == path_with_file_name_of(
            path@,
            sibling_name(path_file_stem_of(path@), path_extension_of(path@)),
        ),
{
    let stem = path_file_stem(path);
    let ext = path_extension(path);
    let name = sibling_file_name(stem, ext);
    path_with_file_name(path, name.as_str())
}

/// How a file is stripped of its metadata.
#[derive(Debug, Clone, Copy, PartialEq, Eq, Structural)]
pub enum StripMethod {
    Jpeg,
    Png,
    Pdf,
    /// Video and audio, stripped by `ffmpeg`.
    AudioVideo,
}

/// The stripper chosen for a file of type `file_type`, if there is one.
pub open spec fn stripper_for(file_type: Option<Seq<char>>) -> Option<StripMethod> {
    match file_type {
        Some(t) => if t == "jpeg"@ {
            Some(StripMethod::Jpeg)
        } else if t == "png"@ {
            Some(StripMethod::Png)
        } else if t == "pdf"@ {
            Some(StripMethod::Pdf)
        } else if t == "video"@ || t == "audio"@ {
            Some(StripMethod::AudioVideo)
        } else {
            None
        },
        None => None,
    }
}

/// Chooses the stripper for `path` by its file type: JPEG, PNG and PDF have
/// their own, video and audio go through `ffmpeg`, and any other type (or a
/// path without extension) is unsupported.
pub fn strip_metadata(path: &str) -> (r: Result<StripMethod, MetadataError>)
    ensures
        r is Ok <==> stripper_for(file_type_of(path@)) is Some,
        r matches Ok(m) ==> stripper_for(file_type_of(path@)) == Some(m),
        match file_type_of(path@) {
            None => r matches Err(MetadataError::UnsupportedFileType(m)) && m@
                == "Unknown file extension"@,
            Some(t) => if t == "jpeg"@ {
                r == Ok::<StripMethod, MetadataError>(StripMethod::Jpeg)
            } else if t == "png"@ {
                r == Ok::<StripMethod, MetadataError>(StripMethod::Png)
            } else if t == "pdf"@ {
                r == Ok::<StripMethod, MetadataError>(StripMethod::Pdf)
            } else if t == "video"@ || t == "audio"@ {
                r == Ok::<StripMethod, MetadataError>(StripMethod::AudioVideo)
            } else {
                r matches Err(MetadataError::UnsupportedFileType(m)) && m@
                    == "No metadata stripper for type: "@ + t
            },
        },
{
    let file_type = match detect_file_type(path) {
        Some(t) => t,
        None => return Err(MetadataError::UnsupportedFileType(owned("Unknown file extension"))),
    };
    let t = file_type.as_str();
    if same_text(t, "jpeg") {
        Ok(StripMethod::Jpeg)
    } else if same_text(t, "png") {
        Ok(StripMethod::Png)
    } else if same_text(t, "pdf") {
        Ok(StripMethod::Pdf)
    } else if same_text(t, "video") || same_text(t, "audio") {
        Ok(StripMethod::AudioVideo)
    } else {
        Err(MetadataError::UnsupportedFileType(joined("No metadata stripper for type: ", t)))
    }
}

/// `a - b`, or 0 when `b` is larger (`u64::saturating_sub`).
pub open spec fn saturating_diff(a: u64, b: u64) -> u64 {
    if a >= b { (a - b) as u64 } else { 0 }
}

impl StripResult {
    /// The report for `file_path`, stripped from `original_size` to
    /// `stripped_size` bytes by removing `fields_removed`.
    pub fn new(file_path: String, original_size: u64, stripped_size: u64, fields_removed: Vec<String>) -> (r: Self)
        ensures
            r.file_path@ == file_path@,
            r.original_size == original_size,
            r.stripped_size == stripped_size,
            r.bytes_removed == saturating_diff(original_size, stripped_size),
            r.fields_removed@ == fields_removed@,
    {
        let bytes_removed = if original_size >= stripped_size {
            original_size - stripped_size
        } else {
            0
        };
        StripResult { file_path, original_size, stripped_size, bytes_removed, fields_removed }
    }

    /// The report for a video or audio file that `ffmpeg` rewrote without
    /// its global, container and chapter metadata.
    pub fn for_audio_video(file_path: String, original_size: u64, stripped_size: u64) -> (r: Self)
        ensures
            r.file_path@ == file_path@,
            r.original_size == original_size,
            r.stripped_size == stripped_size,
            r.bytes_removed == saturating_diff(original_size, stripped_size),
            strings_view(r.fields_removed@) == seq![
                "Video/Audio global metadata"@,
                "Container metadata tags"@,
                "Chapter metadata"@,
            ],
    {
        let mut fields: Vec<String> = Vec::new();
        fields.push(owned("Video/Audio global metadata"));
        fields.push(owned("Container metadata tags"));
        fields.push(owned("Chapter metadata"));
        let r = Self::new(file_path, original_size, stripped_size, fields);
        assert(strings_view(r.fields_removed@) =~= seq![
            "Video/Audio global metadata"@,
            "Container metadata tags"@,
            "Chapter metadata"@,
        ]);
        r
    }
}

/// The arguments `ffmpeg` is run with to copy `input` to `output` with the
/// streams as they are and no global, stream or chapter metadata.
pub open spec fn ffmpeg_strip_args_of(input: Seq<char>, output: Seq<char>) -> Seq<Seq<char>> {
    seq!["-i"@, input, "-map_metadata"@, "-1"@, "-c"@, "copy"@, "-y"@, output]
}

/// The `ffmpeg` command line that strips `input` into `output`.
pub fn ffmpeg_strip_args(input: &str, output: &str) -> (r: Vec<String>)
    ensures
        strings_view(r@) == ffmpeg_strip_args_of(input@, output@),
{
    let mut r: Vec<String> = Vec::new();
    r.push(owned("-i"));
    r.push(owned(input));
    r.push(owned("-map_metadata"));
    r.push(owned("-1"));
    r.push(owned("-c"));
    r.push(owned("copy"));
    r.push(owned("-y"));
    r.push(owned(output));
    assert(strings_view(r@) =~= ffmpeg_strip_args_of(input@, output@));
    r
}

/// How the run of `ffmpeg` ended.
#[derive(Debug, Clone, Copy, PartialEq, Eq, Structural)]
pub enum FfmpegRun {
    /// It succeeded and wrote this many bytes.
    Succeeded { stripped_size: u64 },
    /// It ran and exited with a failure status.
    Failed,
    /// It could not be started.
    NotStarted,
}

/// The outcome of stripping the video or audio file `file_path` of
/// `original_size` bytes with `ffmpeg`: the report when it succeeded, else
/// the reason.
pub fn strip_av_metadata(file_path: String, original_size: u64, run: FfmpegRun) -> (r: Result<StripResult, MetadataError>)
    ensures
        match run {
            FfmpegRun::Succeeded { stripped_size } => r matches Ok(res) && {
                &&& res.file_path@ == file_path@
                &&& res.original_size == original_size
                &&& res.stripped_size == stripped_size
                &&& res.bytes_removed == saturating_diff(original_size, stripped_size)
                &&& strings_view(res.fields_removed@) == seq![
                    "Video/Audio global metadata"@,
                    "Container metadata tags"@,
                    "Chapter metadata"@,
                ]
            },
            FfmpegRun::Failed => r matches Err(MetadataError::ImageProcessing(m)) && m@
                == "ffmpeg exited with non-zero status"@,
            FfmpegRun::NotStarted => r matches Err(MetadataError::ImageProcessing(m)) && m@
                == "ffmpeg not found. Install ffmpeg for video/audio metadata stripping."@,
        },
{
    match run {
        FfmpegRun::Succeeded { stripped_size } => Ok(
            StripResult::for_audio_video(file_path, original_size, stripped_size),
        ),
        FfmpegRun::Failed => Err(
            MetadataError::ImageProcessing(owned("ffmpeg exited with non-zero status")),
        ),
        FfmpegRun::NotStarted => Err(
            MetadataError::ImageProcessing(
                owned("ffmpeg not found. Install ffmpeg for video/audio metadata stripping."),
            ),
        ),
    }
}

// ---------------------------------------------------------------------------
// Inspection

/// The PDF keys whose presence inspection reports, in order.
pub open spec fn pdf_inspect_keys() -> Seq<Seq<char>> {
    seq![
        "/Author"@,
        "/Creator"@,
        "/Producer"@,
        "/CreationDate"@,
        "/ModDate"@,
        "/Title"@,
        "/Subject"@,
        "/Keywords"@,
        "/Metadata"@,
    ]
}

/// The ASCII bytes of those keys.
pub open spec fn pdf_inspect_key_bytes() -> Seq<Seq<u8>> {
    seq![
        seq![0x2fu8, 0x41u8, 0x75u8, 0x74u8, 0x68u8, 0x6fu8, 0x72u8],
        seq![0x2fu8, 0x43u8, 0x72u8, 0x65u8, 0x61u8, 0x74u8, 0x6fu8, 0x72u8],
        seq![0x2fu8, 0x50u8, 0x72u8, 0x6fu8, 0x64u8, 0x75u8, 0x63u8, 0x65u8, 0x72u8],
        seq![0x2fu8, 0x43u8, 0x72u8, 0x65u8, 0x61u8, 0x74u8, 0x69u8, 0x6fu8, 0x6eu8, 0x44u8, 0x61u8, 0x74u8, 0x65u8],
        seq![0x2fu8, 0x4du8, 0x6fu8, 0x64u8, 0x44u8, 0x61u8, 0x74u8, 0x65u8],
        seq![0x2fu8, 0x54u8, 0x69u8, 0x74u8, 0x6cu8, 0x65u8],
        seq![0x2fu8, 0x53u8, 0x75u8, 0x62u8, 0x6au8, 0x65u8, 0x63u8, 0x74u8],
        seq![0x2fu8, 0x4bu8, 0x65u8, 0x79u8, 0x77u8, 0x6fu8, 0x72u8, 0x64u8, 0x73u8],
        seq![0x2fu8, 0x4du8, 0x65u8, 0x74u8, 0x61u8, 0x64u8, 0x61u8, 0x74u8, 0x61u8],
    ]
}

fn pdf_inspect_key(i: usize) -> (r: (&'static str, Vec<u8>))
    requires
        i < 9,
    ensures
        r.0@ == pdf_inspect_keys()[i as int],
        r.1@ == pdf_inspect_key_bytes()[i as int],
        r.1@.len() <= 13,
{
    if i == 0 {
        let v = vec![0x2fu8, 0x41u8, 0x75u8, 0x74u8, 0x68u8, 0x6fu8, 0x72u8];
        assert(v@ == pdf_inspect_key_bytes()[0]);
        ("/Author", v)
    } else if i == 1 {
        let v = vec![0x2fu8, 0x43u8, 0x72u8, 0x65u8, 0x61u8, 0x74u8, 0x6fu8, 0x72u8];
        assert(v@ == pdf_inspect_key_bytes()[1]);
        ("/Creator", v)
    } else if i == 2 {
        let v = vec![0x2fu8, 0x50u8, 0x72u8, 0x6fu8, 0x64u8, 0x75u8, 0x63u8, 0x65u8, 0x72u8];
        assert(v@ == pdf_inspect_key_bytes()[2]);
        ("/Producer", v)
    } else if i == 3 {
        let v = vec![0x2fu8, 0x43u8, 0x72u8, 0x65u8, 0x61u8, 0x74u8, 0x69u8, 0x6fu8, 0x6eu8, 0x44u8, 0x61u8, 0x74u8, 0x65u8];
        assert(v@ == pdf_inspect_key_bytes()[3]);
        ("/CreationDate", v)
    } else if i == 4 {
        let v = vec![0x2fu8, 0x4du8, 0x6fu8, 0x64u8, 0x44u8, 0x61u8, 0x74u8, 0x65u8];
        assert(v@ == pdf_inspect_key_bytes()[4]);
        ("/ModDate", v)
    } else if i == 5 {
        let v = vec![0x2fu8, 0x54u8, 0x69u8, 0x74u8, 0x6cu8, 0x65u8];
        assert(v@ == pdf_inspect_key_bytes()[5]);
        ("/Title", v)
    } else if i == 6 {
        let v = vec![0x2fu8, 0x53u8, 0x75u8, 0x62u8, 0x6au8, 0x65u8, 0x63u8, 0x74u8];
        assert(v@ == pdf_inspect_key_bytes()[6]);
        ("/Subject", v)
    } else if i == 7 {
        let v = vec![0x2fu8, 0x4bu8, 0x65u8, 0x79u8, 0x77u8, 0x6fu8, 0x72u8, 0x64u8, 0x73u8];
        assert(v@ == pdf_inspect_key_bytes()[7]);
        ("/Keywords", v)
    } else {
        let v = vec![0x2fu8, 0x4du8, 0x65u8, 0x74u8, 0x61u8, 0x64u8, 0x61u8, 0x74u8, 0x61u8];
        assert(v@ == pdf_inspect_key_bytes()[8]);
        ("/Metadata", v)
    }
}

/// Whether `p` occurs as a contiguous run of bytes in `s`.
pub open spec fn contains_bytes(s: Seq<u8>, p: Seq<u8>) -> bool {
    exists|i: int| 0 <= i && i + p.len() <= s.len() && #[trigger] s.subrange(i, i + p.len()) == p
}

fn find_bytes(s: &[u8], p: &[u8]) -> (r: bool)
    ensures
        r == contains_bytes(s@, p@),
{
    let n = s.len();
    let m = p.len();
    if m > n {
        return false;
    }
    let mut i: usize = 0;
    while i <= n - m
        invariant
            n == s@.len(),
            m == p@.len(),
            m <= n,
            i <= n - m + 1,
            forall|j: int| 0 <= j < i ==> #[trigger] s@.subrange(j, j + m) != p@,
        decreases n - m + 1 - i,
    {
        let mut k: usize = 0;
        let mut same = true;
        while k < m
            invariant
                n == s@.len(),
                m == p@.len(),
                i + m <= n,
                k <= m,
                same == forall|t: int| 0 <= t < k ==> s@[i + t] == p@[t],
            decreases m - k,
        {
            if s[i + k] != p[k] {
                same = false;
            }
            k = k + 1;
        }
        if same {
            assert(s@.subrange(i as int, i + m) =~= p@);
            return true;
        }
        proof {
            let t = choose|t: int| 0 <= t < m && s@[i + t] != p@[t];
            assert(s@.subrange(i as int, i + m)[t] != p@[t]);
        }
        i = i + 1;
    }
    false
}

/// The scan of the first `n` inspected keys over the PDF `bytes`: each key
/// that occurs in the bytes counts its length and is reported. Searching the
/// raw bytes finds exactly the ASCII keys that a lossy UTF-8 decoding of them
/// would contain.
pub open spec fn pdf_scan_upto(bytes: Seq<u8>, n: int) -> MetadataScan
    decreases n,
{
    if n <= 0 {
        empty_scan()
    } else {
        let st = pdf_scan_upto(bytes, n - 1);
        let key = pdf_inspect_keys()[n - 1];
        let key_bytes = pdf_inspect_key_bytes()[n - 1];
        if contains_bytes(bytes, key_bytes) {
            MetadataScan {
                size: st.size + key_bytes.len(),
                fields: st.fields.push("PDF "@ + key),
                ..st
            }
        } else {
            st
        }
    }
}

/// What inspecting a PDF file reports.
pub open spec fn pdf_file_scan(bytes: Seq<u8>) -> MetadataScan {
    pdf_scan_upto(bytes, 9)
}

fn inspect_pdf(bytes: &[u8]) -> (r: ScanResult)
    ensures
        holds_scan(r, pdf_file_scan(bytes@)),
{
    let mut r = ScanResult { has_exif: false, has_gps: false, size: 0, fields: Vec::new() };
    assert(strings_view(r.fields@) =~= Seq::<Seq<char>>::empty());
    let mut i: usize = 0;
    while i < 9
        invariant
            i <= 9,
            r.size <= 16 * i,
            holds_scan(r, pdf_scan_upto(bytes@, i as int)),
        decreases 9 - i,
    {
        let (key, kb) = pdf_inspect_key(i);
        if find_bytes(bytes, kb.as_slice()) {
            r.size = r.size + kb.len();
            let ghost before = strings_view(r.fields@);
            r.fields.push(joined("PDF ", key));
            assert(strings_view(r.fields@) =~= before.push("PDF "@ + key@));
        }
        i = i + 1;
    }
    r
}

/// What inspecting a file of type `file_type` with contents `bytes` reports:
/// JPEG, PNG and PDF are scanned; other types report that inspection is not
/// available.
pub open spec fn inspection(file_type: Seq<char>, bytes: Seq<u8>) -> MetadataScan {
    if file_type == "jpeg"@ {
        jpeg_file_scan(bytes)
    } else if file_type == "png"@ {
        png_file_scan(bytes)
    } else if file_type == "pdf"@ {
        pdf_file_scan(bytes)
    } else {
        MetadataScan {
            fields: seq!["Metadata inspection not available for this type"@],
            ..empty_scan()
        }
    }
}

/// Reports the metadata found in the file at `file_path`, whose contents
/// are `bytes`. Files without an extension are unsupported.
pub fn inspect_metadata(file_path: String, bytes: &[u8]) -> (r: Result<MetadataInfo, MetadataError>)
    ensures
        match file_type_of(file_path@) {
            None => r matches Err(MetadataError::UnsupportedFileType(m)) && m@
                == "Unknown extension"@,
            Some(t) => r matches Ok(info) && {
                let st = inspection(t, bytes@);
                &&& info.file_path@ == file_path@
                &&& info.file_type@ == t
                &&& info.has_exif == st.has_exif
                &&& info.has_gps == st.has_gps
                &&& info.metadata_size_bytes == st.size
                &&& strings_view(info.fields_found@) == st.fields
            },
        },
{
    let file_type = match detect_file_type(file_path.as_str()) {
        Some(t) => t,
        None => return Err(MetadataError::UnsupportedFileType(owned("Unknown extension"))),
    };
    let t = file_type.as_str();
    let scan = if same_text(t, "jpeg") {
        inspect_jpeg(bytes)
    } else if same_text(t, "png") {
        inspect_png(bytes)
    } else if same_text(t, "pdf") {
        inspect_pdf(bytes)
    } else {
        let mut fields: Vec<String> = Vec::new();
        fields.push(owned("Metadata inspection not available for this type"));
        let r = ScanResult { has_exif: false, has_gps: false, size: 0, fields };
        assert(strings_view(r.fields@) =~= seq!["Metadata inspection not available for this type"@]);
        r
    };
    Ok(MetadataInfo {
        file_path,
        file_type,
        has_exif: scan.has_exif,
        has_gps: scan.has_gps,
        metadata_size_bytes: scan.size,
        fields_found: scan.fields,
    })
}

proof fn lemma_file_types()
    ensures
        file_type_for("jpg"@) == "jpeg"@,
        file_type_for("jpeg"@) == "jpeg"@,
        file_type_for("png"@) == "png"@,
        file_type_for("pdf"@) == "pdf"@,
        file_type_for("mp4"@) == "video"@,
        file_type_for("mov"@) == "video"@,
        file_type_for("avi"@) == "video"@,
        file_type_for("mkv"@) == "video"@,
        file_type_for("webm"@) == "video"@,
        file_type_for("mp3"@) == "audio"@,
        file_type_for("ogg"@) == "audio"@,
        file_type_for("flac"@) == "audio"@,
        file_type_for("wav"@) == "audio"@,
        file_type_for("m4a"@) == "audio"@,
        "video"@ != "jpeg"@ && "video"@ != "png"@ && "video"@ != "pdf"@,
        "audio"@ != "jpeg"@ && "audio"@ != "png"@ && "audio"@ != "pdf"@,
        "jpeg"@ != "png"@ && "jpeg"@ != "pdf"@ && "png"@ != "pdf"@,
{
    reveal_strlit("jpg");
    reveal_strlit("jpeg");
    reveal_strlit("png");
    reveal_strlit("webp");
    reveal_strlit("gif");
    reveal_strlit("pdf");
    reveal_strlit("mp4");
    reveal_strlit("mov");
    reveal_strlit("avi");
    reveal_strlit("mkv");
    reveal_strlit("webm");
    reveal_strlit("mp3");
    reveal_strlit("ogg");
    reveal_strlit("flac");
    reveal_strlit("wav");
    reveal_strlit("m4a");
    reveal_strlit("video");
    reveal_strlit("audio");
    assert("jpg"@[0] != "png"@[0] && "jpg"@[0] != "gif"@[0] && "jpg"@[0] != "pdf"@[0]);
    assert("png"@[0] != "gif"@[0] && "png"@[1] != "pdf"@[1] && "gif"@[0] != "pdf"@[0]);
    assert("mp4"@[2] != "mov"@[2] && "mp4"@[0] != "avi"@[0] && "mp4"@[1] != "mkv"@[1]);
    assert("mov"@[0] != "avi"@[0] && "mov"@[1] != "mkv"@[1] && "avi"@[0] != "mkv"@[0]);
    assert("mp3"@[2] != "mp4"@[2] && "mp3"@[1] != "mov"@[1] && "mp3"@[0] != "avi"@[0]);
    assert("mp3"@[1] != "mkv"@[1] && "ogg"@[0] != "mp4"@[0] && "ogg"@[0] != "png"@[0]);
    assert("wav"@[0] != "mp4"@[0] && "m4a"@[1] != "mp4"@[1] && "m4a"@[1] != "mov"@[1]);
    assert("m4a"@[1] != "mkv"@[1] && "m4a"@[0] != "avi"@[0] && "wav"@[0] != "jpg"@[0]);
    assert("ogg"@[0] != "jpg"@[0] && "ogg"@[0] != "gif"@[0] && "ogg"@[0] != "pdf"@[0]);
    assert("wav"@[0] != "png"@[0] && "wav"@[0] != "gif"@[0] && "wav"@[0] != "pdf"@[0]);
    assert("m4a"@[0] != "jpg"@[0] && "m4a"@[0] != "png"@[0] && "m4a"@[0] != "gif"@[0]);
    assert("m4a"@[0] != "pdf"@[0] && "mp4"@[0] != "jpg"@[0] && "mp4"@[0] != "png"@[0]);
    assert("mp4"@[0] != "gif"@[0] && "mp4"@[0] != "pdf"@[0] && "avi"@[0] != "jpg"@[0]);
    assert("avi"@[0] != "png"@[0] && "avi"@[0] != "gif"@[0] && "avi"@[0] != "pdf"@[0]);
    assert("mp3"@[0] != "jpg"@[0] && "mp3"@[0] != "png"@[0] && "mp3"@[0] != "gif"@[0]);
    assert("mp3"@[0] != "pdf"@[0] && "webm"@[0] != "jpeg"@[0]);
    assert("webm"@[3] != "webp"@[3] && "flac"@[0] != "jpeg"@[0] && "flac"@[0] != "webp"@[0]);
    assert("webm"@[0] != "flac"@[0] && "jpeg"@[0] != "webp"@[0]);
    assert("wav"@[0] != "mov"@[0] && "wav"@[0] != "avi"@[0] && "wav"@[0] != "mkv"@[0]);
    assert("wav"@[0] != "mp3"@[0] && "wav"@[0] != "ogg"@[0]);
    assert("m4a"@[1] != "mp3"@[1] && "m4a"@[0] != "ogg"@[0] && "ogg"@[0] != "mov"@[0]);
    assert("ogg"@[0] != "avi"@[0] && "ogg"@[0] != "mkv"@[0] && "ogg"@[0] != "mp3"@[0]);
    assert("wav"@.len() == 3 && "webp"@.len() == 4 && "webm"@.len() == 4 && "flac"@.len() == 4);
    assert("jpeg"@.len() == 4 && "m4a"@.len() == 3 && "ogg"@.len() == 3 && "mp3"@.len() == 3);
    assert("video"@[0] != "audio"@[0]);
    assert("video"@.len() == 5 && "audio"@.len() == 5 && "jpeg"@.len() == 4);
}

/// Video and audio attachments go to `ffmpeg`, whatever the case of their
/// extension: a path whose extension lowercases to `mp4`, `mov`, `avi`,
/// `mkv` or `webm` has file type `video`, one that lowercases to `mp3`,
/// `ogg`, `flac`, `wav` or `m4a` has type `audio`, and both are stripped by
/// the audio/video stripper. JPEG (`jpg`, `jpeg`), PNG and PDF files have
/// their own strippers.
pub proof fn media_files_are_stripped_by_ffmpeg(path: Seq<char>, ext: Seq<char>)
    requires
        path_extension_of(path) == Some(ext),
    ensures
        ({
            let e = lowercase_of(ext);
            e == "mp4"@ || e == "mov"@ || e == "avi"@ || e == "mkv"@ || e == "webm"@
        }) ==> file_type_of(path) == Some("video"@) && stripper_for(file_type_of(path)) == Some(
            StripMethod::AudioVideo,
        ),
        ({
            let e = lowercase_of(ext);
            e == "mp3"@ || e == "ogg"@ || e == "flac"@ || e == "wav"@ || e == "m4a"@
        }) ==> file_type_of(path) == Some("audio"@) && stripper_for(file_type_of(path)) == Some(
            StripMethod::AudioVideo,
        ),
        (lowercase_of(ext) == "jpg"@ || lowercase_of(ext) == "jpeg"@) ==> stripper_for(
            file_type_of(path),
        ) == Some(StripMethod::Jpeg),
        lowercase_of(ext) == "png"@ ==> stripper_for(file_type_of(path)) == Some(StripMethod::Png),
        lowercase_of(ext) == "pdf"@ ==> stripper_for(file_type_of(path)) == Some(StripMethod::Pdf),
{
    lemma_file_types();
}

} // verus!
