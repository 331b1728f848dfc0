//! Image captions from the local vision model: the request, the reply, and the documents and
//! segments built from captions.
use vstd::prelude::*;

use crate::text::chars_eq;
use crate::text::chars_of;
use crate::text::display_file_name;
use crate::text::file_name_of;
use crate::text::first_chars;
use crate::text::push_chars;
use crate::text::push_str;
use crate::text::string_of;
use crate::text::take_chars_of;
use crate::text::to_lowercase;
use crate::text::trim_chars;
use crate::text::trimmed;
use crate::text::unicode_lowercase;
use crate::error::AppError;
use crate::locator::embedded_image_number_from_locator;
use crate::locator::image_number_of;
use crate::models::ParsedDocument;
use crate::models::ParsedDocumentSegment;

verus! {

/// What the vision sidecar is asked: the image, the model folder and a prompt.
#[derive(Debug, Clone)]
pub struct VisionSidecarRequest {
    pub file_path: String,
    pub model_dir: String,
    pub prompt: String,
}

/// What the vision sidecar answers: a caption of the image.
#[derive(Debug, Clone)]
pub struct VisionSidecarResult {
    pub caption: String,
}

/// A text made of the characters of a literal.
fn text(value: &str) -> (r: String)
    ensures
        r@ == value@,
{
    string_of(chars_of(value).as_slice())
}

/// The request for a caption of the image at `file_path`, with an empty prompt.
pub fn vision_request(file_path: String, model_dir: String) -> (r: VisionSidecarRequest)
    ensures
        r.file_path == file_path,
        r.model_dir == model_dir,
        r.prompt@.len() == 0,
{
    VisionSidecarRequest { file_path, model_dir, prompt: String::new() }
}

/// What the vision sidecar's reply means: the result when it reports success with one;
/// else an error, with the sidecar's message (or `未知错误`).
pub fn vision_envelope_result(
    ok: bool,
    result: Option<VisionSidecarResult>,
    error_message: Option<String>,
) -> (r: Result<VisionSidecarResult, AppError>)
    ensures
        ok && result is Some ==> r == Ok::<VisionSidecarResult, AppError>(result->0),
        ok && result is None ==> (r matches Err(AppError::Filesystem(m)) && m@ == "Vision sidecar 报告成功但未提供结果"@),
        !ok ==> (r matches Err(AppError::Filesystem(m)) && m@ == "Vision sidecar 错误："@ + match error_message {
            Some(e) => e@,
            None => "未知错误"@,
        }),
{
    if ok {
        match result {
            Some(v) => Ok(v),
            None => Err(AppError::Filesystem(text("Vision sidecar 报告成功但未提供结果"))),
        }
    } else {
        let mut m: Vec<char> = Vec::new();
        push_str(&mut m, "Vision sidecar 错误：");
        match error_message {
            Some(e) => push_str(&mut m, e.as_str()),
            None => push_str(&mut m, "未知错误"),
        }
        Err(AppError::Filesystem(string_of(m.as_slice())))
    }
}

/// `s`, or its first `max_chars` characters followed by `...` when longer.
pub open spec fn shortened(s: Seq<char>, max_chars: int) -> Seq<char> {
    if s.len() <= max_chars {
        s
    } else {
        s.take(max_chars) + "..."@
    }
}

/// The error of a sidecar reply that could not be read, with up to 500 characters of the
/// trimmed log appended.
pub fn reply_failure_with_log(error: &AppError, stderr: &str) -> (r: AppError)
    ensures
        r matches AppError::Filesystem(m) && m@ == error.label() + error.detail() + "；日志："@ + shortened(
            trimmed(stderr@),
            500,
        ),
{
    let mut m: Vec<char> = Vec::new();
    push_str(&mut m, error.message().as_str());
    push_str(&mut m, "；日志：");
    let t = trim_chars(chars_of(stderr).as_slice());
    if t.len() <= 500 {
        push_chars(&mut m, t.as_slice());
    } else {
        push_chars(&mut m, take_chars_of(t.as_slice(), 500).as_slice());
        push_str(&mut m, "...");
    }
    AppError::Filesystem(string_of(m.as_slice()))
}

/// The image extensions captioned by the vision model.
pub open spec fn image_extensions() -> Seq<Seq<char>> {
    seq!["png"@, "jpg"@, "jpeg"@, "bmp"@, "tif"@, "tiff"@, "webp"@]
}

/// Whether a file is an image the vision model captions (extension lowercased).
pub open spec fn is_image_file(extension: Seq<char>) -> bool {
    image_extensions().contains(unicode_lowercase(extension))
}

/// Whether a file is an image the vision model captions.
pub fn is_image_extension(extension: &str) -> (r: bool)
    ensures
        r == is_image_file(extension@),
{
    let lower = to_lowercase(extension);
    let l = chars_of(lower.as_str());
    let items: Vec<&str> = vec!["png", "jpg", "jpeg", "bmp", "tif", "tiff", "webp"];
    let mut k: usize = 0;
    while k < items.len()
        invariant
            k <= items.len(),
            l@ == unicode_lowercase(extension@),
            items@.len() == image_extensions().len(),
            forall|j: int| 0 <= j < items@.len() ==> #[trigger] items@[j]@ == image_extensions()[j],
            forall|j: int| 0 <= j < k ==> image_extensions()[j] != l@,
        decreases items.len() - k,
    {
        if chars_eq(l.as_slice(), chars_of(items[k]).as_slice()) {
            assert(image_extensions()[k as int] == l@);
            return true;
        }
        k = k + 1;
    }
    proof {
        if image_extensions().contains(l@) {
            let j = choose|j: int| 0 <= j < image_extensions().len() && image_extensions()[j] == l@;
            assert(image_extensions()[j] != l@);
        }
    }
    false
}

/// The document of an image when the vision model is not configured: it says so.
pub fn vision_unconfigured_document(relative_path: &str) -> (r: ParsedDocument)
    ensures
        r.title@ == file_name_of(relative_path@),
        r.body@ == "Vision 模型未配置，无法生成图片描述"@,
        r.summary@ == "Vision 模型未配置"@,
        r.source_locator@ == relative_path@,
        r.segments@.len() == 0,
        r.table_insights@.len() == 0,
{
    ParsedDocument {
        title: display_file_name(relative_path),
        body: text("Vision 模型未配置，无法生成图片描述"),
        summary: text("Vision 模型未配置"),
        source_locator: text(relative_path),
        segments: Vec::new(),
        table_insights: Vec::new(),
    }
}

/// The document of a captioned image: the caption is both body and summary.
pub fn caption_document(relative_path: &str, caption: String) -> (r: ParsedDocument)
    ensures
        r.title@ == file_name_of(relative_path@),
        r.body == caption,
        r.summary == caption,
        r.source_locator@ == relative_path@,
        r.segments@.len() == 0,
        r.table_insights@.len() == 0,
{
    ParsedDocument {
        title: display_file_name(relative_path),
        body: caption.clone(),
        summary: caption,
        source_locator: text(relative_path),
        segments: Vec::new(),
        table_insights: Vec::new(),
    }
}

/// Whether a segment is an embedded image of a document.
pub open spec fn is_embedded_image_segment(segment: ParsedDocumentSegment) -> bool {
    segment.evidence matches Some(e) && (e.kind matches Some(k) && k@ == "embedded_image"@)
}

/// The segments to caption: the embedded-image segments whose locator names an image, with
/// that image's number, in order.
pub open spec fn images_to_caption(segments: Seq<ParsedDocumentSegment>, n: int) -> Seq<(usize, u32)>
    decreases n,
{
    if n <= 0 {
        seq![]
    } else {
        let before = images_to_caption(segments, n - 1);
        let segment = segments[n - 1];
        if is_embedded_image_segment(segment) {
            match image_number_of(segment.source_locator@) {
                Some(k) => before.push(((n - 1) as usize, k)),
                None => before,
            }
        } else {
            before
        }
    }
}

/// The segments of a document to caption, each with its image number.
pub fn embedded_images_to_caption(document: &ParsedDocument) -> (r: Vec<(usize, u32)>)
    ensures
        r@ == images_to_caption(document.segments@, document.segments@.len() as int),
{
    let mut out: Vec<(usize, u32)> = Vec::new();
    let mut i: usize = 0;
    while i < document.segments.len()
        invariant
            i <= document.segments@.len(),
            out@ == images_to_caption(document.segments@, i as int),
        decreases document.segments@.len() - i,
    {
        let segment = &document.segments[i];
        let embedded = match &segment.evidence {
            Some(e) => match &e.kind {
                Some(k) => chars_eq(chars_of(k.as_str()).as_slice(), chars_of("embedded_image").as_slice()),
                None => false,
            },
            None => false,
        };
        if embedded {
            match embedded_image_number_from_locator(segment.source_locator.as_str()) {
                Some(k) => out.push((i, k)),
                None => {},
            }
        }
        i = i + 1;
    }
    out
}

/// Appends a non-empty caption to a segment's body, after a blank line and `[图片描述] `.
pub fn append_image_caption(segment: &mut ParsedDocumentSegment, caption: &str)
    ensures
        caption@.len() == 0 ==> *final(segment) == *old(segment),
        caption@.len() > 0 ==> final(segment).body@ == old(segment).body@ + "\n\n[图片描述] "@ + caption@,
        final(segment).title == old(segment).title,
        final(segment).source_locator == old(segment).source_locator,
        final(segment).evidence == old(segment).evidence,
{
    let c = chars_of(caption);
    if c.len() > 0 {
        let mut body = chars_of(segment.body.as_str());
        push_str(&mut body, "\n\n[图片描述] ");
        push_chars(&mut body, c.as_slice());
        segment.body = string_of(body.as_slice());
    }
}

} // verus!
