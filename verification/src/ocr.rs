//! Local OCR: the request handed to the OCR sidecar, the checks on its inputs, the document
//! built from its result, and the images of Word documents that can be recognised.
use vstd::prelude::*;

use crate::text::char_count;
use crate::text::chars_of;
use crate::text::decimal;
use crate::text::decimal_chars;
use crate::text::file_name_of;
use crate::text::display_file_name;
use crate::text::join_strings;
use crate::text::join_with;
use crate::text::line_count;
use crate::text::nonblank_lines;
use crate::text::normalize_chars;
use crate::text::normalized;
use crate::text::padded_decimal_chars;
use crate::text::push_chars;
use crate::text::push_str;
use crate::text::string_of;
use crate::text::string_views;
use crate::text::trim_chars;
use crate::text::trimmed;
use crate::text::truncate_chars_of;
use crate::text::truncated;
use crate::text::zero_padded;
use crate::runtime::is_present;
use crate::runtime::lemma_texts;
use crate::runtime::ocr_model_names;
use crate::runtime::ocr_models;
use crate::runtime::required_ocr_files;
use crate::runtime::required_ocr_model_files;
use crate::runtime::texts;
use crate::sheet::all_digits;
use crate::sheet::unsigned_digits;
use crate::text::digits_value;
use crate::text::ascii_lower;
use crate::text::ascii_lowered;
use crate::text::ascii_lower_chars;
use crate::text::chars_eq;
use crate::text::ends_with_chars;
use crate::text::has_prefix;
use crate::text::has_suffix;
use crate::text::replace_all;
use crate::text::replace_chars;
use crate::text::slice_chars;
use crate::text::split_on;
use crate::text::starts_with_chars;
use crate::text::find_first;
use crate::text::find_chars;
use crate::text::lemma_find_from;
use crate::text::last_index_of;
use crate::text::last_index_of_char;
use crate::text::lemma_last_index_of;
use crate::xml::start_tags_from;
use crate::xml::tag_attribute;
use crate::xml::tag_attribute_value;
use crate::xml::trim_start_char;
use crate::xml::unescape_attribute_chars;
use crate::xml::unescaped_attribute;
use crate::xml::xml_start_tags;
use crate::archive::zip_entry_bytes;
use crate::archive::zip_entry_size;
use crate::archive::zip_entry_text;
use crate::archive::entry_text;
use crate::archive::names_of;
use crate::archive::zip_error_text;
use crate::archive::io_error_text;
use crate::archive::zip_file_names;
use crate::archive::zip_names;
use crate::archive::zip_read_bytes;
use crate::archive::zip_read_size;
use crate::archive::zip_read_text;
use crate::archive::ZipReadError;
use crate::locator::embedded_image_number_from_locator;
use crate::locator::image_number_of;
use crate::error::AppError;
use crate::models::OcrPageResult;
use crate::models::OcrSidecarRequest;
use crate::models::OcrSidecarResult;
use crate::models::ParsedDocument;
use crate::models::ParsedDocumentSegment;
use crate::models::ParsedEvidenceMetadata;

verus! {

/// The most bytes of an input OCR is run on (50 MiB).
pub const MAX_OCR_INPUT_BYTES: u64 = 52428800;

/// The PDF pages OCR reads when no other limit is configured.
pub const DEFAULT_MAX_OCR_PDF_PAGES: u32 = 12;

/// The image pixels OCR accepts when no other limit is configured.
pub const DEFAULT_MAX_OCR_IMAGE_PIXELS: u64 = 25000000;

/// The most characters kept of a recognised body.
pub const MAX_OCR_BODY_CHARS: usize = 60000;

/// A text made of the characters of a literal.
fn text(value: &str) -> (r: String)
    ensures
        r@ == value@,
{
    string_of(chars_of(value).as_slice())
}

/// The number `str::parse::<u64>` reads from `s`: an optional `+`, then ASCII digits.
pub open spec fn parsed_u64(s: Seq<char>) -> Option<u64> {
    if unsigned_digits(s).len() > 0 && all_digits(unsigned_digits(s)) && digits_value(unsigned_digits(s))
        <= u64::MAX {
        Some(digits_value(unsigned_digits(s)) as u64)
    } else {
        None
    }
}

/// Reads a number as `str::parse::<u64>` does.
pub fn parse_u64(v: &[char]) -> (r: Option<u64>)
    ensures
        r == parsed_u64(v@),
{
    let start: usize = if v.len() > 0 && v[0] == '+' {
        1
    } else {
        0
    };
    let ghost d = v@.skip(start as int);
    assert(d =~= unsigned_digits(v@));
    if v.len() == start {
        return None;
    }
    let mut value: u64 = 0;
    let mut i: usize = start;
    let mut overflow = false;
    assert(d.take(0) =~= Seq::<char>::empty());
    while i < v.len()
        invariant
            start <= i <= v.len(),
            d == v@.skip(start as int),
            d == unsigned_digits(v@),
            forall|k: int| 0 <= k < i - start ==> crate::text::is_digit(#[trigger] d[k]),
            !overflow ==> value == digits_value(d.take(i - start)),
            overflow ==> digits_value(d.take(i - start)) > u64::MAX,
        decreases v.len() - i,
    {
        let c = v[i];
        assert(d[i - start] == c);
        if !('0' <= c && c <= '9') {
            assert(!crate::text::is_digit(d[i - start]));
            assert(!all_digits(d));
            return None;
        }
        let ghost pre = d.take(i - start);
        assert(d.take(i - start + 1).drop_last() =~= pre);
        assert(d.take(i - start + 1).last() == c);
        let digit: u64 = (c as u32 - 48) as u64;
        if !overflow {
            match value.checked_mul(10) {
                Some(m) => match m.checked_add(digit) {
                    Some(n) => {
                        value = n;
                    },
                    None => {
                        overflow = true;
                    },
                },
                None => {
                    assert(digits_value(pre) * 10 + digit >= digits_value(pre) * 10) by (nonlinear_arith)
                        requires
                            digit >= 0,
                    ;
                    overflow = true;
                },
            }
        } else {
            assert(digits_value(pre) * 10 + digit >= digits_value(pre)) by (nonlinear_arith)
                requires
                    digit >= 0,
            ;
        }
        i = i + 1;
    }
    assert(d.take(v.len() - start) =~= d);
    if overflow {
        None
    } else {
        Some(value)
    }
}

/// A configured limit: the trimmed value when it reads as a positive number, else `default`.
pub open spec fn limit_of(value: Option<Seq<char>>, default: u64) -> u64 {
    match value {
        Some(v) => match parsed_u64(trimmed(v)) {
            Some(n) => if n > 0 {
                n
            } else {
                default
            },
            None => default,
        },
        None => default,
    }
}

/// The view of an optional text.
pub open spec fn opt_text(value: Option<&str>) -> Option<Seq<char>> {
    match value {
        Some(v) => Some(v@),
        None => None,
    }
}

/// The PDF pages OCR reads: the value of `OCR_MAX_PDF_PAGES` when it is a positive `u32`,
/// else twelve.
pub fn ocr_pdf_page_limit(value: Option<&str>) -> (r: u32)
    ensures
        r == (if limit_of(opt_text(value), DEFAULT_MAX_OCR_PDF_PAGES as u64) <= u32::MAX {
            limit_of(opt_text(value), DEFAULT_MAX_OCR_PDF_PAGES as u64)
        } else {
            DEFAULT_MAX_OCR_PDF_PAGES as u64
        }),
{
    let n = ocr_limit(value, DEFAULT_MAX_OCR_PDF_PAGES as u64);
    if n <= 4294967295u64 {
        n as u32
    } else {
        DEFAULT_MAX_OCR_PDF_PAGES
    }
}

/// The image pixels OCR accepts: the value of `OCR_MAX_IMAGE_PIXELS` when it is a positive
/// number, else twenty-five million.
pub fn ocr_image_pixel_limit(value: Option<&str>) -> (r: u64)
    ensures
        r == limit_of(opt_text(value), DEFAULT_MAX_OCR_IMAGE_PIXELS),
{
    ocr_limit(value, DEFAULT_MAX_OCR_IMAGE_PIXELS)
}

/// A configured limit, or `default`.
fn ocr_limit(value: Option<&str>, default: u64) -> (r: u64)
    ensures
        r == limit_of(opt_text(value), default),
{
    match value {
        Some(v) => {
            let t = trim_chars(chars_of(v).as_slice());
            match parse_u64(t.as_slice()) {
                Some(n) => if n > 0 {
                    n
                } else {
                    default
                },
                None => default,
            }
        },
        None => default,
    }
}

/// The request for the OCR sidecar: the input, the model folder and tier, the limits, with
/// progress reports and no temporary folder yet.
pub fn build_ocr_request(
    file_path: String,
    model_dir: String,
    tier: &str,
    max_pdf_pages: u32,
    max_image_pixels: u64,
) -> (r: OcrSidecarRequest)
    ensures
        r.file_path == file_path,
        r.model_dir == model_dir,
        r.tier@ == tier@,
        r.max_pdf_pages == max_pdf_pages,
        r.max_image_pixels == max_image_pixels,
        r.progress,
        r.temp_dir is None,
{
    OcrSidecarRequest {
        file_path,
        model_dir,
        tier: text(tier),
        max_pdf_pages,
        max_image_pixels,
        progress: true,
        temp_dir: None,
    }
}

/// The request with the temporary folder the sidecar may write to.
pub fn request_with_temp_dir(request: &OcrSidecarRequest, temp_dir: &str) -> (r: OcrSidecarRequest)
    ensures
        r.file_path == request.file_path,
        r.model_dir == request.model_dir,
        r.tier == request.tier,
        r.max_pdf_pages == request.max_pdf_pages,
        r.max_image_pixels == request.max_image_pixels,
        r.progress == request.progress,
        r.temp_dir matches Some(t) && t@ == temp_dir@,
{
    OcrSidecarRequest {
        file_path: request.file_path.clone(),
        model_dir: request.model_dir.clone(),
        tier: request.tier.clone(),
        max_pdf_pages: request.max_pdf_pages,
        max_image_pixels: request.max_image_pixels,
        progress: request.progress,
        temp_dir: Some(text(temp_dir)),
    }
}

/// The folder, under the system's temporary folder, that holds the OCR runs' folders.
pub const OCR_TEMP_ROOT_NAME: &'static str = "library-ocr-runs";

/// The name of the temporary folder of one OCR run: `run-` and a unique id.
pub fn ocr_temp_dir_name(unique_id: &str) -> (r: String)
    ensures
        r@ == "run-"@ + unique_id@,
{
    let mut v = chars_of("run-");
    push_str(&mut v, unique_id);
    string_of(v.as_slice())
}

/// Whether a temporary folder may be removed: only a folder directly under the OCR runs'
/// folder whose name starts with `run-`.
pub fn may_remove_ocr_temp_dir(is_direct_child: bool, file_name: Option<&str>) -> (r: bool)
    ensures
        r == (is_direct_child && (file_name matches Some(n) && has_prefix(n@, "run-"@))),
{
    match file_name {
        Some(n) => is_direct_child && starts_with_chars(chars_of(n).as_slice(), chars_of("run-").as_slice()),
        None => false,
    }
}

/// The temporary folder of one OCR run.
#[derive(Debug, Clone)]
pub struct OcrSidecarTempDir {
    path: String,
}

impl OcrSidecarTempDir {
    /// The run folder at `path`.
    pub fn new(path: String) -> (r: OcrSidecarTempDir)
        ensures
            r.path_view() == path@,
    {
        OcrSidecarTempDir { path }
    }

    /// The folder's path.
    pub closed spec fn path_view(&self) -> Seq<char> {
        self.path@
    }

    /// The folder's path.
    pub fn path(&self) -> (r: &str)
        ensures
            r@ == self.path_view(),
    {
        self.path.as_str()
    }
}

/// A progress report of a running OCR: the phase and how far it got.
#[derive(Debug, Clone)]
pub struct OcrProgressUpdate {
    pub phase: String,
    pub current: u32,
    pub total: u32,
}

/// An OCR request ready to run, and the locator its result belongs to.
pub struct PreparedOcrRequest {
    pub request: OcrSidecarRequest,
    pub source_locator: String,
}

impl PreparedOcrRequest {
    /// The request handed to the sidecar.
    pub fn request(&self) -> (r: &OcrSidecarRequest)
        ensures
            r == &self.request,
    {
        &self.request
    }

    /// The locator the result belongs to.
    pub fn source_locator(&self) -> (r: &str)
        ensures
            r@ == self.source_locator@,
    {
        self.source_locator.as_str()
    }
}

/// The model files of an OCR tier, each `folder/file`.
pub open spec fn ocr_model_file_paths(tier: Seq<char>) -> Seq<Seq<char>> {
    Seq::new(
        6,
        |k: int| ocr_models(tier)[k / 3] + "/"@ + required_ocr_files()[k % 3],
    )
}

/// The model files of an OCR tier.
pub fn ocr_model_files(tier: &str) -> (r: Vec<String>)
    ensures
        texts(r@) == ocr_model_file_paths(tier@),
{
    let models = ocr_model_names(tier);
    let files = required_ocr_model_files();
    proof {
        lemma_texts(models@);
        lemma_texts(files@);
    }
    let mut out: Vec<String> = Vec::new();
    let mut k: usize = 0;
    while k < 6
        invariant
            k <= 6,
            texts(models@) == ocr_models(tier@),
            texts(files@) == required_ocr_files(),
            models@.len() == 2,
            files@.len() == 3,
            texts(out@) == ocr_model_file_paths(tier@).take(k as int),
        decreases 6 - k,
    {
        let mut path: Vec<char> = Vec::new();
        push_str(&mut path, models[k / 3].as_str());
        push_str(&mut path, "/");
        push_str(&mut path, files[k % 3].as_str());
        assert(texts(models@)[(k / 3) as int] == models@[(k / 3) as int]@);
        assert(texts(files@)[(k % 3) as int] == files@[(k % 3) as int]@);
        let ghost before = out@;
        out.push(string_of(path.as_slice()));
        assert(texts(out@) =~= texts(before).push(path@));
        assert(texts(out@) =~= ocr_model_file_paths(tier@).take(k + 1));
        k = k + 1;
    }
    out
}

/// The candidates of `all` that are not present, in order.
pub open spec fn absent_from(all: Seq<Seq<char>>, present: Seq<Seq<char>>, n: int) -> Seq<Seq<char>>
    decreases n,
{
    if n <= 0 {
        seq![]
    } else if is_present(present, all[n - 1]) {
        absent_from(all, present, n - 1)
    } else {
        absent_from(all, present, n - 1).push(all[n - 1])
    }
}

/// The candidates that are not present.
fn absent(all: &Vec<String>, present: &[String]) -> (r: Vec<String>)
    ensures
        texts(r@) == absent_from(texts(all@), texts(present@), all@.len() as int),
{
    proof {
        lemma_texts(all@);
    }
    let mut out: Vec<String> = Vec::new();
    let mut i: usize = 0;
    while i < all.len()
        invariant
            i <= all.len(),
            texts(all@).len() == all@.len(),
            forall|k: int| 0 <= k < all@.len() ==> #[trigger] texts(all@)[k] == all@[k]@,
            texts(out@) == absent_from(texts(all@), texts(present@), i as int),
        decreases all.len() - i,
    {
        let p = chars_of(all[i].as_str());
        if !crate::runtime::contains_path(present, p.as_slice()) {
            let ghost before = out@;
            out.push(string_of(p.as_slice()));
            assert(texts(out@) =~= texts(before).push(all@[i as int]@));
        }
        i = i + 1;
    }
    out
}

/// The checks on an OCR input, in order: the file exists, is at most 50 MiB, the model
/// folder exists, holds the tier's model folders, and those hold their files. Folders and
/// files found present are listed relative to the model folder.
pub fn validate_ocr_inputs(
    file_exists: bool,
    file_size: u64,
    model_dir_exists: bool,
    tier: &str,
    present_model_dirs: &[String],
    present_model_files: &[String],
) -> (r: Result<(), AppError>)
    ensures
        !file_exists ==> (r matches Err(AppError::Filesystem(m)) && m@ == "OCR 输入文件不存在"@),
        file_exists && file_size > MAX_OCR_INPUT_BYTES ==> (r matches Err(AppError::Filesystem(m)) && m@
            == "OCR_INPUT_TOO_LARGE：OCR 输入文件过大，当前上限为 50 MB"@),
        file_exists && file_size <= MAX_OCR_INPUT_BYTES && !model_dir_exists ==> (r matches Err(
            AppError::Filesystem(m),
        ) && m@ == "OCR 模型目录不存在"@),
        file_exists && file_size <= MAX_OCR_INPUT_BYTES && model_dir_exists ==> {
            let missing_models = absent_from(ocr_models(tier@), texts(present_model_dirs@), 2);
            let missing_files = absent_from(ocr_model_file_paths(tier@), texts(present_model_files@), 6);
            &&& missing_models.len() > 0 ==> (r matches Err(AppError::Filesystem(m)) && m@ == "OCR 模型不完整，缺少 "@
                + join_with(missing_models, "、"@))
            &&& missing_models.len() == 0 && missing_files.len() > 0 ==> (r matches Err(AppError::Filesystem(m))
                && m@ == "OCR 模型文件不完整，缺少 "@ + join_with(missing_files, "、"@))
            &&& missing_models.len() == 0 && missing_files.len() == 0 ==> r is Ok
        },
{
    if !file_exists {
        return Err(AppError::Filesystem(text("OCR 输入文件不存在")));
    }
    if file_size > MAX_OCR_INPUT_BYTES {
        return Err(AppError::Filesystem(text("OCR_INPUT_TOO_LARGE：OCR 输入文件过大，当前上限为 50 MB")));
    }
    if !model_dir_exists {
        return Err(AppError::Filesystem(text("OCR 模型目录不存在")));
    }
    let models = ocr_model_names(tier);
    proof {
        lemma_texts(models@);
    }
    let missing_models = absent(&models, present_model_dirs);
    if missing_models.len() > 0 {
        let mut m: Vec<char> = Vec::new();
        push_str(&mut m, "OCR 模型不完整，缺少 ");
        push_str(&mut m, join_strings(&missing_models, "、").as_str());
        proof {
            lemma_texts(missing_models@);
        }
        return Err(AppError::Filesystem(string_of(m.as_slice())));
    }
    let files = ocr_model_files(tier);
    proof {
        lemma_texts(files@);
    }
    let missing_files = absent(&files, present_model_files);
    if missing_files.len() > 0 {
        let mut m: Vec<char> = Vec::new();
        push_str(&mut m, "OCR 模型文件不完整，缺少 ");
        push_str(&mut m, join_strings(&missing_files, "、").as_str());
        proof {
            lemma_texts(missing_files@);
        }
        return Err(AppError::Filesystem(string_of(m.as_slice())));
    }
    proof {
        lemma_texts(missing_models@);
        lemma_texts(missing_files@);
    }
    Ok(())
}

/// The line count recorded for a text: its non-blank lines, at least one, at most `u32::MAX`.
pub open spec fn line_count_of(s: Seq<char>) -> u32 {
    (if nonblank_lines(s) == 0 {
        1
    } else if nonblank_lines(s) <= u32::MAX {
        nonblank_lines(s)
    } else {
        u32::MAX as nat
    }) as u32
}

/// The character count recorded for a text, at most `u32::MAX`.
pub open spec fn char_count_of(s: Seq<char>) -> u32 {
    (if s.len() <= u32::MAX {
        s.len()
    } else {
        u32::MAX as nat
    }) as u32
}

/// The one-based number of a recognised page.
pub open spec fn page_number_of(page: OcrPageResult) -> u32 {
    if page.page_index < u32::MAX {
        (page.page_index + 1) as u32
    } else {
        u32::MAX
    }
}

/// Whether `segment` is the segment of the recognised `page`: its number after the file name
/// as title, its normalised text (cut to `MAX_OCR_BODY_CHARS`) as body, `#ocr-page-NNN` as
/// locator, and OCR page evidence with the recognised counts and confidence.
pub open spec fn ocr_segment_ok(
    segment: ParsedDocumentSegment,
    relative_path: Seq<char>,
    page: OcrPageResult,
    page_count: u32,
) -> bool {
    let n = page_number_of(page);
    let body = normalized(page.text@);
    &&& segment.title@ == file_name_of(relative_path) + " · OCR 第 "@ + decimal(n as nat) + " 页"@
    &&& segment.body@ == truncated(body, MAX_OCR_BODY_CHARS as int)
    &&& segment.source_locator@ == relative_path + "#ocr-page-"@ + zero_padded(decimal(n as nat), 3)
    &&& segment.evidence matches Some(e) && {
        &&& e.kind matches Some(k) && k@ == "ocr_page"@
        &&& e.page_number == Some(n)
        &&& e.page_count == Some(page_count)
        &&& e.image_number is None
        &&& e.line_count == Some(
            match page.line_count {
                Some(c) => c,
                None => line_count_of(page.text@),
            },
        )
        &&& e.char_count == Some(
            match page.char_count {
                Some(c) => c,
                None => char_count_of(body),
            },
        )
        &&& e.confidence_percent == page.confidence_percent
    }
}

/// The recognised pages among the first `n` whose text is not blank, in order.
pub open spec fn pages_with_text(pages: Seq<OcrPageResult>, n: int) -> Seq<OcrPageResult>
    decreases n,
{
    if n <= 0 {
        seq![]
    } else if normalized(pages[n - 1].text@).len() == 0 {
        pages_with_text(pages, n - 1)
    } else {
        pages_with_text(pages, n - 1).push(pages[n - 1])
    }
}

/// The segment of one recognised page.
fn ocr_page_segment(relative_path: &str, page: &OcrPageResult, page_count: u32, body: &[char]) -> (r: ParsedDocumentSegment)
    requires
        body@ == normalized(page.text@),
    ensures
        ocr_segment_ok(r, relative_path@, *page, page_count),
{
    let n = page.page_index.saturating_add(1);
    let mut title: Vec<char> = Vec::new();
    push_str(&mut title, display_file_name(relative_path).as_str());
    push_str(&mut title, " · OCR 第 ");
    push_chars(&mut title, decimal_chars(n as u64).as_slice());
    push_str(&mut title, " 页");
    let mut locator: Vec<char> = Vec::new();
    push_str(&mut locator, relative_path);
    push_str(&mut locator, "#ocr-page-");
    push_chars(&mut locator, padded_decimal_chars(n as u64, 3).as_slice());
    let lines = match page.line_count {
        Some(c) => c,
        None => line_count(page.text.as_str()),
    };
    let body_text = string_of(body);
    let chars = match page.char_count {
        Some(c) => c,
        None => char_count(body_text.as_str()),
    };
    ParsedDocumentSegment {
        title: string_of(title.as_slice()),
        body: string_of(truncate_chars_of(body, MAX_OCR_BODY_CHARS).as_slice()),
        source_locator: string_of(locator.as_slice()),
        evidence: Some(
            ParsedEvidenceMetadata {
                kind: Some(text("ocr_page")),
                page_number: Some(n),
                page_count: Some(page_count),
                image_number: None,
                line_count: Some(lines),
                char_count: Some(chars),
                confidence_percent: page.confidence_percent,
            },
        ),
    }
}

/// The document of an OCR result: the file name as title, the normalised text (cut to
/// `MAX_OCR_BODY_CHARS`) as body and its first 180 characters as summary, `#ocr` as locator,
/// and one segment per page with text. A result without text is refused.
pub fn build_ocr_document(relative_path: &str, result: &OcrSidecarResult) -> (r: Result<ParsedDocument, AppError>)
    ensures
        normalized(result.text@).len() == 0 ==> (r matches Err(AppError::Filesystem(m)) && m@ == "OCR 结果为空"@),
        normalized(result.text@).len() > 0 ==> (r matches Ok(d) && {
            let kept = pages_with_text(result.pages@, result.pages@.len() as int);
            &&& d.title@ == file_name_of(relative_path@)
            &&& d.body@ == truncated(normalized(result.text@), MAX_OCR_BODY_CHARS as int)
            &&& d.summary@ == truncated(normalized(result.text@), 180)
            &&& d.source_locator@ == relative_path@ + "#ocr"@
            &&& d.segments@.len() == kept.len()
            &&& forall|k: int| 0 <= k < kept.len() ==> ocr_segment_ok(#[trigger] d.segments@[k], relative_path@, kept[k], result.page_count)
            &&& d.table_insights@.len() == 0
        }),
{
    let body = normalize_chars(chars_of(result.text.as_str()).as_slice());
    if body.len() == 0 {
        return Err(AppError::Filesystem(text("OCR 结果为空")));
    }
    let ghost all = result.pages@;
    let mut segments: Vec<ParsedDocumentSegment> = Vec::new();
    let mut i: usize = 0;
    while i < result.pages.len()
        invariant
            i <= result.pages@.len(),
            all == result.pages@,
            segments@.len() == pages_with_text(all, i as int).len(),
            forall|k: int| 0 <= k < segments@.len() ==> ocr_segment_ok(#[trigger] segments@[k], relative_path@, pages_with_text(all, i as int)[k], result.page_count),
        decreases result.pages@.len() - i,
    {
        let page = &result.pages[i];
        let page_body = normalize_chars(chars_of(page.text.as_str()).as_slice());
        if page_body.len() > 0 {
            let segment = ocr_page_segment(relative_path, page, result.page_count, page_body.as_slice());
            let ghost before = segments@;
            segments.push(segment);
            assert forall|k: int| 0 <= k < segments@.len() implies ocr_segment_ok(#[trigger] segments@[k], relative_path@, pages_with_text(all, i + 1)[k], result.page_count) by {
                if k < before.len() {
                    assert(segments@[k] == before[k]);
                }
            }
        }
        i = i + 1;
    }
    let mut locator: Vec<char> = Vec::new();
    push_str(&mut locator, relative_path);
    push_str(&mut locator, "#ocr");
    Ok(
        ParsedDocument {
            title: display_file_name(relative_path),
            summary: string_of(truncate_chars_of(body.as_slice(), 180).as_slice()),
            body: string_of(truncate_chars_of(body.as_slice(), MAX_OCR_BODY_CHARS).as_slice()),
            source_locator: string_of(locator.as_slice()),
            segments,
            table_insights: Vec::new(),
        },
    )
}

/// The file extensions of images a Word document may embed.
pub open spec fn docx_image_suffixes() -> Seq<Seq<char>> {
    seq![".bmp"@, ".emf"@, ".gif"@, ".jpeg"@, ".jpg"@, ".png"@, ".svg"@, ".tif"@, ".tiff"@, ".webp"@, ".wmf"@]
}

/// The image extensions OCR reads.
pub open spec fn ocr_image_extensions() -> Seq<Seq<char>> {
    seq!["bmp"@, "jpeg"@, "jpg"@, "png"@, "tif"@, "tiff"@, "webp"@]
}

/// The texts of a list of literals.
fn literal_list(items: &Vec<&str>) -> (r: Vec<Vec<char>>)
    ensures
        r@.len() == items@.len(),
        forall|k: int| 0 <= k < r@.len() ==> #[trigger] r@[k]@ == items@[k]@,
{
    let mut out: Vec<Vec<char>> = Vec::new();
    let mut i: usize = 0;
    while i < items.len()
        invariant
            i <= items.len(),
            out@.len() == i,
            forall|k: int| 0 <= k < i ==> #[trigger] out@[k]@ == items@[k]@,
        decreases items.len() - i,
    {
        out.push(chars_of(items[i]));
        i = i + 1;
    }
    out
}

/// Whether a Word relationship target names an image file (by extension, ignoring ASCII case).
pub open spec fn is_docx_image_target_of(target: Seq<char>) -> bool {
    exists|k: int| 0 <= k < docx_image_suffixes().len() && has_suffix(ascii_lowered(target), #[trigger] docx_image_suffixes()[k])
}

/// Whether a Word relationship target names an image file.
pub fn is_docx_image_target(target: &str) -> (r: bool)
    ensures
        r == is_docx_image_target_of(target@),
{
    let lower = ascii_lower_chars(chars_of(target).as_slice());
    let items: Vec<&str> = vec![".bmp", ".emf", ".gif", ".jpeg", ".jpg", ".png", ".svg", ".tif", ".tiff", ".webp", ".wmf"];
    let suffixes = literal_list(&items);
    assert(suffixes@.len() == docx_image_suffixes().len());
    assert(forall|k: int| 0 <= k < suffixes@.len() ==> #[trigger] suffixes@[k]@ == docx_image_suffixes()[k]);
    let mut i: usize = 0;
    while i < suffixes.len()
        invariant
            i <= suffixes.len(),
            lower@ == ascii_lowered(target@),
            suffixes@.len() == docx_image_suffixes().len(),
            forall|k: int| 0 <= k < suffixes@.len() ==> #[trigger] suffixes@[k]@ == docx_image_suffixes()[k],
            forall|k: int| 0 <= k < i ==> !has_suffix(ascii_lowered(target@), #[trigger] docx_image_suffixes()[k]),
        decreases suffixes.len() - i,
    {
        if ends_with_chars(lower.as_slice(), suffixes[i].as_slice()) {
            assert(has_suffix(ascii_lowered(target@), docx_image_suffixes()[i as int]));
            return true;
        }
        i = i + 1;
    }
    false
}

/// Whether OCR reads images with this extension (leading dots ignored, ASCII case ignored).
pub open spec fn is_ocr_image_extension(extension: Seq<char>) -> bool {
    ocr_image_extensions().contains(ascii_lowered(trim_start_char(extension, '.')))
}

/// Whether OCR reads embedded images with this extension.
pub fn is_ocr_supported_docx_image_extension(extension: &str) -> (r: bool)
    ensures
        r == is_ocr_image_extension(extension@),
{
    let v = chars_of(extension);
    let mut i: usize = 0;
    assert(v@.skip(0) =~= v@);
    while i < v.len() && v[i] == '.'
        invariant
            i <= v.len(),
            trim_start_char(v@, '.') == trim_start_char(v@.skip(i as int), '.'),
        decreases v.len() - i,
    {
        assert(v@.skip(i as int).drop_first() =~= v@.skip(i + 1));
        i = i + 1;
    }
    let rest = slice_chars(v.as_slice(), i, v.len());
    assert(rest@ =~= v@.skip(i as int));
    let lower = ascii_lower_chars(rest.as_slice());
    let items: Vec<&str> = vec!["bmp", "jpeg", "jpg", "png", "tif", "tiff", "webp"];
    let supported = literal_list(&items);
    let mut k: usize = 0;
    while k < supported.len()
        invariant
            k <= supported.len(),
            lower@ == ascii_lowered(trim_start_char(extension@, '.')),
            supported@.len() == ocr_image_extensions().len(),
            forall|j: int| 0 <= j < supported@.len() ==> #[trigger] supported@[j]@ == ocr_image_extensions()[j],
            forall|j: int| 0 <= j < k ==> ocr_image_extensions()[j] != lower@,
        decreases supported.len() - k,
    {
        if chars_eq(lower.as_slice(), supported[k].as_slice()) {
            assert(ocr_image_extensions()[k as int] == lower@);
            return true;
        }
        k = k + 1;
    }
    proof {
        if ocr_image_extensions().contains(lower@) {
            let j = choose|j: int| 0 <= j < ocr_image_extensions().len() && ocr_image_extensions()[j] == lower@;
            assert(ocr_image_extensions()[j] != lower@);
        }
    }
    false
}

/// The archive path of a Word relationship target: unescaped, trimmed, with `\` read as `/`;
/// none when empty, holding a NUL, starting with a scheme (`x:` before the first `/`), or with
/// an empty, `.` or `..` part. Absolute targets lose their leading `/`; others are taken
/// relative to `word/` unless they already start with it.
pub open spec fn relationship_target_path(target: Seq<char>) -> Option<Seq<char>> {
    let normalized = slashed_target(target);
    if normalized.len() == 0 || normalized.contains('\0') || split_on(normalized, '/')[0].contains(':') {
        None
    } else if has_bad_part(joined_target(normalized)) {
        None
    } else {
        Some(joined_target(normalized))
    }
}

/// A relationship target unescaped, trimmed, with `\` read as `/`.
pub open spec fn slashed_target(target: Seq<char>) -> Seq<char> {
    replace_all(trimmed(unescaped_attribute(target)), "\\"@, "/"@)
}

/// A target path inside the archive: without leading `/` when absolute, else under `word/`.
pub open spec fn joined_target(normalized: Seq<char>) -> Seq<char> {
    if normalized.len() > 0 && normalized[0] == '/' {
        trim_start_char(normalized, '/')
    } else if has_prefix(normalized, "word/"@) {
        normalized
    } else {
        "word/"@ + normalized
    }
}

/// Whether a path has an empty, `.` or `..` part.
pub open spec fn has_bad_part(path: Seq<char>) -> bool {
    exists|k: int| 0 <= k < split_on(path, '/').len() && is_bad_part(#[trigger] split_on(path, '/')[k])
}

/// Whether a path part is empty, `.` or `..`.
pub open spec fn is_bad_part(part: Seq<char>) -> bool {
    part.len() == 0 || part == "."@ || part == ".."@
}

/// Whether `v` holds `c`.
fn has_char(v: &[char], c: char) -> (r: bool)
    ensures
        r == v@.contains(c),
{
    let mut i: usize = 0;
    while i < v.len()
        invariant
            i <= v.len(),
            forall|k: int| 0 <= k < i ==> v@[k] != c,
        decreases v.len() - i,
    {
        if v[i] == c {
            assert(v@[i as int] == c);
            return true;
        }
        i = i + 1;
    }
    false
}

/// The archive path of a Word relationship target, if it is a safe one.
pub fn normalize_docx_relationship_target(target: &str) -> (r: Option<String>)
    ensures
        r matches Some(p) ==> relationship_target_path(target@) == Some(p@),
        r is None ==> relationship_target_path(target@) is None,
{
    proof {
        reveal_strlit("\\");
        reveal_strlit("/");
        reveal_strlit("word/");
        reveal_strlit(".");
        reveal_strlit("..");
    }
    let unescaped = unescape_attribute_chars(chars_of(target).as_slice());
    let trimmed_target = trim_chars(unescaped.as_slice());
    let backslash: Vec<char> = vec!['\\'];
    let slash: Vec<char> = vec!['/'];
    assert(backslash@ =~= "\\"@);
    assert(slash@ =~= "/"@);
    let normalized = replace_chars(trimmed_target.as_slice(), backslash.as_slice(), slash.as_slice());
    let pieces = crate::text::split_chars(normalized.as_slice(), '/');
    proof {
        crate::text::lemma_split_nonempty(normalized@, '/');
    }
    if normalized.len() == 0 || has_char(normalized.as_slice(), '\0') || has_char(pieces[0].as_slice(), ':') {
        return None;
    }
    let joined: Vec<char> = if normalized[0] == '/' {
        let mut i: usize = 0;
        assert(normalized@.skip(0) =~= normalized@);
        while i < normalized.len() && normalized[i] == '/'
            invariant
                i <= normalized.len(),
                trim_start_char(normalized@, '/') == trim_start_char(normalized@.skip(i as int), '/'),
            decreases normalized.len() - i,
        {
            assert(normalized@.skip(i as int).drop_first() =~= normalized@.skip(i + 1));
            i = i + 1;
        }
        let rest = slice_chars(normalized.as_slice(), i, normalized.len());
        assert(rest@ =~= normalized@.skip(i as int));
        rest
    } else if starts_with_chars(normalized.as_slice(), chars_of("word/").as_slice()) {
        normalized
    } else {
        let mut w = chars_of("word/");
        crate::text::push_chars(&mut w, normalized.as_slice());
        w
    };
    assert(normalized@ == slashed_target(target@));
    assert(pieces@[0]@ == split_on(normalized@, '/')[0]);
    assert(joined@ == joined_target(normalized@));
    let parts = crate::text::split_chars(joined.as_slice(), '/');
    assert(relationship_target_path(target@) == if has_bad_part(joined@) {
        None
    } else {
        Some(joined@)
    });
    let mut k: usize = 0;
    while k < parts.len()
        invariant
            k <= parts.len(),
            relationship_target_path(target@) == if has_bad_part(joined@) {
                None
            } else {
                Some(joined@)
            },
            parts@.len() == split_on(joined@, '/').len(),
            forall|j: int| 0 <= j < parts@.len() ==> #[trigger] parts@[j]@ == split_on(joined@, '/')[j],
            forall|j: int| 0 <= j < k ==> !is_bad_part(#[trigger] split_on(joined@, '/')[j]),
        decreases parts.len() - k,
    {
        let part = &parts[k];
        let bad = part.len() == 0 || chars_eq(part.as_slice(), chars_of(".").as_slice()) || chars_eq(part.as_slice(), chars_of("..").as_slice());
        if bad {
            assert(is_bad_part(split_on(joined@, '/')[k as int]));
            return None;
        }
        k = k + 1;
    }
    Some(string_of(joined.as_slice()))
}

/// The relationship (id and image path) a `Relationship` tag declares, when it is an image
/// relationship whose target is a safe path under `word/media/` that names an image present
/// in the archive.
pub open spec fn image_relationship(tag: Seq<char>, names: Seq<Seq<char>>) -> Option<(Seq<char>, Seq<char>)> {
    match tag_attribute_value(tag, "Id"@) {
        None => None,
        Some(id) => {
            let kind = match tag_attribute_value(tag, "Type"@) {
                Some(t) => t,
                None => seq![],
            };
            match tag_attribute_value(tag, "Target"@) {
                None => None,
                Some(raw) => match relationship_target_path(raw) {
                    None => None,
                    Some(target) => if has_suffix(trimmed(kind), "/image"@) && names.contains(target) && has_prefix(
                        target,
                        "word/media/"@,
                    ) && is_docx_image_target_of(target) {
                        Some((id, target))
                    } else {
                        None
                    },
                },
            }
        },
    }
}

/// The image relationships declared by the first `n` tags, in order.
pub open spec fn image_relationships(tags: Seq<Seq<char>>, names: Seq<Seq<char>>, n: int) -> Seq<(Seq<char>, Seq<char>)>
    decreases n,
{
    if n <= 0 {
        seq![]
    } else {
        match image_relationship(tags[n - 1], names) {
            Some(r) => image_relationships(tags, names, n - 1).push(r),
            None => image_relationships(tags, names, n - 1),
        }
    }
}

/// The target of the last relationship with `id`.
pub open spec fn relationship_target(relationships: Seq<(Seq<char>, Seq<char>)>, id: Seq<char>) -> Option<Seq<char>>
    decreases relationships.len(),
{
    if relationships.len() == 0 {
        None
    } else if relationships.last().0 == id {
        Some(relationships.last().1)
    } else {
        relationship_target(relationships.drop_last(), id)
    }
}

/// The relationship id of a `blip` tag: its `r:embed`, else `embed`, else `r:link`, else
/// `link` attribute.
pub open spec fn blip_relationship_id(tag: Seq<char>) -> Option<Seq<char>> {
    if tag_attribute_value(tag, "r:embed"@) is Some {
        tag_attribute_value(tag, "r:embed"@)
    } else if tag_attribute_value(tag, "embed"@) is Some {
        tag_attribute_value(tag, "embed"@)
    } else if tag_attribute_value(tag, "r:link"@) is Some {
        tag_attribute_value(tag, "r:link"@)
    } else {
        tag_attribute_value(tag, "link"@)
    }
}

/// The image paths the first `n` `blip` tags refer to through the relationships, in order.
pub open spec fn referenced_images(blips: Seq<Seq<char>>, relationships: Seq<(Seq<char>, Seq<char>)>, n: int) -> Seq<Seq<char>>
    decreases n,
{
    if n <= 0 {
        seq![]
    } else {
        let before = referenced_images(blips, relationships, n - 1);
        match blip_relationship_id(blips[n - 1]) {
            None => before,
            Some(id) => match relationship_target(relationships, id) {
                Some(target) => before.push(target),
                None => before,
            },
        }
    }
}

/// The images of a Word document that OCR can be asked about, in the order the document
/// shows them: each `blip` tag of the body resolved through the image relationships.
pub open spec fn docx_images(document_xml: Seq<char>, relationships_xml: Seq<char>, names: Seq<Seq<char>>) -> Seq<Seq<char>> {
    let tags = start_tags_from(relationships_xml, "Relationship"@, 0);
    let relationships = image_relationships(tags, names, tags.len() as int);
    let blips = start_tags_from(document_xml, "blip"@, 0);
    referenced_images(blips, relationships, blips.len() as int)
}

/// Whether `name` is among `names`.
fn name_listed(names: &Vec<String>, name: &str) -> (r: bool)
    ensures
        r == string_views(names@).contains(name@),
{
    let wanted = chars_of(name);
    let mut i: usize = 0;
    while i < names.len()
        invariant
            i <= names.len(),
            wanted@ == name@,
            forall|k: int| 0 <= k < i ==> string_views(names@)[k] != name@,
        decreases names.len() - i,
    {
        assert(string_views(names@)[i as int] == names@[i as int]@);
        if chars_eq(chars_of(names[i].as_str()).as_slice(), wanted.as_slice()) {
            return true;
        }
        i = i + 1;
    }
    proof {
        if string_views(names@).contains(name@) {
            let k = choose|k: int| 0 <= k < string_views(names@).len() && string_views(names@)[k] == name@;
            assert(string_views(names@)[k] != name@);
        }
    }
    false
}

/// The image relationship a `Relationship` tag declares.
fn relationship_of(tag: &str, names: &Vec<String>) -> (r: Option<(String, String)>)
    ensures
        r matches Some(p) ==> image_relationship(tag@, string_views(names@)) == Some((p.0@, p.1@)),
        r is None ==> image_relationship(tag@, string_views(names@)) is None,
{
    proof {
        reveal_strlit("/image");
        reveal_strlit("word/media/");
    }
    let id = match tag_attribute(tag, "Id") {
        Some(i) => i,
        None => return None,
    };
    let kind = match tag_attribute(tag, "Type") {
        Some(t) => chars_of(t.as_str()),
        None => Vec::new(),
    };
    let raw = match tag_attribute(tag, "Target") {
        Some(t) => t,
        None => return None,
    };
    let target = match normalize_docx_relationship_target(raw.as_str()) {
        Some(t) => t,
        None => return None,
    };
    let kind_trimmed = trim_chars(kind.as_slice());
    let t = chars_of(target.as_str());
    if ends_with_chars(kind_trimmed.as_slice(), chars_of("/image").as_slice()) && name_listed(names, target.as_str())
        && starts_with_chars(t.as_slice(), chars_of("word/media/").as_slice()) && is_docx_image_target(target.as_str()) {
        Some((id, target))
    } else {
        None
    }
}

/// The views of (id, path) pairs.
pub open spec fn pair_views(pairs: Seq<(String, String)>) -> Seq<(Seq<char>, Seq<char>)> {
    pairs.map_values(|p: (String, String)| (p.0@, p.1@))
}

/// The target of the last relationship with `id`.
fn find_relationship(relationships: &Vec<(String, String)>, id: &str) -> (r: Option<String>)
    ensures
        r matches Some(t) ==> relationship_target(pair_views(relationships@), id@) == Some(t@),
        r is None ==> relationship_target(pair_views(relationships@), id@) is None,
{
    let wanted = chars_of(id);
    let ghost all = pair_views(relationships@);
    let mut i: usize = relationships.len();
    assert(all.take(i as int) =~= all);
    while i > 0
        invariant
            i <= relationships@.len(),
            all == pair_views(relationships@),
            wanted@ == id@,
            relationship_target(all, id@) == relationship_target(all.take(i as int), id@),
        decreases i,
    {
        assert(all.take(i as int).last() == all[i - 1]);
        assert(all.take(i as int).drop_last() =~= all.take(i - 1));
        if chars_eq(chars_of(relationships[i - 1].0.as_str()).as_slice(), wanted.as_slice()) {
            return Some(relationships[i - 1].1.clone());
        }
        i = i - 1;
    }
    None
}

/// The relationship id of a `blip` tag.
fn blip_id(tag: &str) -> (r: Option<String>)
    ensures
        r matches Some(i) ==> blip_relationship_id(tag@) == Some(i@),
        r is None ==> blip_relationship_id(tag@) is None,
{
    match tag_attribute(tag, "r:embed") {
        Some(i) => return Some(i),
        None => {},
    }
    match tag_attribute(tag, "embed") {
        Some(i) => return Some(i),
        None => {},
    }
    match tag_attribute(tag, "r:link") {
        Some(i) => return Some(i),
        None => {},
    }
    tag_attribute(tag, "link")
}

/// The images of a Word document that OCR can be asked about, in the order the body shows
/// them.
pub fn docx_referenced_image_targets(
    document_xml: &str,
    relationships_xml: &str,
    archive_names: &Vec<String>,
) -> (r: Vec<String>)
    ensures
        string_views(r@) == docx_images(document_xml@, relationships_xml@, string_views(archive_names@)),
{
    let tags = xml_start_tags(relationships_xml, "Relationship");
    let ghost tag_views = string_views(tags@);
    let ghost names = string_views(archive_names@);
    let mut relationships: Vec<(String, String)> = Vec::new();
    let mut i: usize = 0;
    while i < tags.len()
        invariant
            i <= tags.len(),
            tag_views == string_views(tags@),
            tag_views == start_tags_from(relationships_xml@, "Relationship"@, 0),
            names == string_views(archive_names@),
            pair_views(relationships@) == image_relationships(tag_views, names, i as int),
        decreases tags.len() - i,
    {
        assert(tag_views[i as int] == tags@[i as int]@);
        match relationship_of(tags[i].as_str(), archive_names) {
            Some(p) => {
                let ghost before = relationships@;
                relationships.push(p);
                assert(pair_views(relationships@) =~= pair_views(before).push((p.0@, p.1@)));
            },
            None => {},
        }
        i = i + 1;
    }
    let blips = xml_start_tags(document_xml, "blip");
    let ghost blip_views = string_views(blips@);
    let ghost rels = pair_views(relationships@);
    let mut out: Vec<String> = Vec::new();
    let mut k: usize = 0;
    while k < blips.len()
        invariant
            k <= blips.len(),
            blip_views == string_views(blips@),
            blip_views == start_tags_from(document_xml@, "blip"@, 0),
            rels == pair_views(relationships@),
            rels == image_relationships(tag_views, names, tag_views.len() as int),
            tag_views == start_tags_from(relationships_xml@, "Relationship"@, 0),
            names == string_views(archive_names@),
            string_views(out@) == referenced_images(blip_views, rels, k as int),
        decreases blips.len() - k,
    {
        assert(blip_views[k as int] == blips@[k as int]@);
        match blip_id(blips[k].as_str()) {
            Some(id) => match find_relationship(&relationships, id.as_str()) {
                Some(target) => {
                    let ghost before = out@;
                    out.push(target);
                    assert(string_views(out@) =~= string_views(before).push(target@));
                },
                None => {},
            },
            None => {},
        }
        k = k + 1;
    }
    out
}

/// The text that opens the message of a failed read of a Word document's part `name`: it
/// names the step that failed (the container, the part, or its XML) and, past the
/// container, the part.
pub open spec fn docx_failure_prefix(name: Seq<char>, error: ZipReadError) -> Seq<char> {
    match error {
        ZipReadError::Archive(_) => "无法读取 DOCX 压缩结构："@,
        ZipReadError::Entry(_) => "无法读取 DOCX 内容 "@ + name + "："@,
        ZipReadError::Read(_) => "无法解析 DOCX XML "@ + name + "："@,
    }
}

/// The message of a failed read of a Word document's part `name`: a `Filesystem` error
/// whose text is the prefix for the failed step, then the outside error's own message.
fn docx_read_failure(name: &str, error: &ZipReadError) -> (r: AppError)
    ensures
        r matches AppError::Filesystem(m) && has_prefix(m@, docx_failure_prefix(name@, *error)),
{
    let mut m: Vec<char> = Vec::new();
    let ghost prefix = docx_failure_prefix(name@, *error);
    match error {
        ZipReadError::Archive(e) => {
            push_str(&mut m, "无法读取 DOCX 压缩结构：");
            assert(m@ == prefix);
            push_str(&mut m, zip_error_text(e).as_str());
        },
        ZipReadError::Entry(e) => {
            push_str(&mut m, "无法读取 DOCX 内容 ");
            push_str(&mut m, name);
            push_str(&mut m, "：");
            assert(m@ =~= prefix);
            push_str(&mut m, zip_error_text(e).as_str());
        },
        ZipReadError::Read(e) => {
            push_str(&mut m, "无法解析 DOCX XML ");
            push_str(&mut m, name);
            push_str(&mut m, "：");
            assert(m@ =~= prefix);
            push_str(&mut m, io_error_text(e).as_str());
        },
    }
    assert(m@.take(prefix.len() as int) =~= prefix);
    AppError::Filesystem(string_of(m.as_slice()))
}

/// The message when a Word document has no `n`-th image OCR can read.
pub open spec fn missing_image_message(n: u32) -> Seq<char> {
    "DOCX 内未找到可 OCR 的第 "@ + decimal(n as nat) + " 张内嵌图片"@
}

/// The images of a Word document's bytes that OCR can be asked about, given the text read
/// for its relationships part.
pub open spec fn archive_images(archive: Seq<u8>, relationships_xml: Seq<char>) -> Seq<Seq<char>> {
    docx_images(entry_text(archive, "word/document.xml"@), relationships_xml, names_of(archive))
}

/// The `image_number`-th image of a Word document's bytes that OCR can be asked about
/// (counting from one; zero counts as one): none when the container or its body cannot be
/// read, or when there is no such image. The relationships part counts as empty when it
/// cannot be read.
pub open spec fn docx_image_target_of(archive: Seq<u8>, image_number: u32) -> Option<Seq<char>> {
    let images = archive_images(archive, entry_text(archive, "word/_rels/document.xml.rels"@));
    let k = if image_number > 0 { image_number - 1 } else { 0 };
    if zip_names(archive) is Some && zip_entry_text(archive, "word/document.xml"@) is Some && k < images.len() {
        Some(images[k])
    } else {
        None
    }
}

/// The `image_number`-th image of a Word document OCR can be asked about (counting from one;
/// zero counts as one). The relationships part counts as empty when it cannot be read.
pub fn docx_embedded_image_target(archive: &[u8], image_number: u32) -> (r: Result<String, AppError>)
    ensures
        r is Ok <==> docx_image_target_of(archive@, image_number) is Some,
        r matches Ok(t) ==> docx_image_target_of(archive@, image_number) == Some(t@),
        zip_names(archive@) is Some && zip_entry_text(archive@, "word/document.xml"@) is Some
            && docx_image_target_of(archive@, image_number) is None ==> (r matches Err(AppError::Filesystem(m))
            && m@ == missing_image_message(image_number)),
        r matches Err(e) ==> e is Filesystem,
{
    let names = match zip_file_names(archive) {
        Ok(n) => n,
        Err(e) => {
            let mut m: Vec<char> = Vec::new();
            push_str(&mut m, "无法读取 DOCX 压缩结构：");
            push_str(&mut m, zip_error_text(&e).as_str());
            return Err(AppError::Filesystem(string_of(m.as_slice())));
        },
    };
    let document_xml = match zip_read_text(archive, "word/document.xml") {
        Ok(x) => x,
        Err(e) => return Err(docx_read_failure("word/document.xml", &e)),
    };
    let relationships_xml = match zip_read_text(archive, "word/_rels/document.xml.rels") {
        Ok(x) => x,
        Err(_) => String::new(),
    };
    let targets = docx_referenced_image_targets(document_xml.as_str(), relationships_xml.as_str(), &names);
    let index = image_number.saturating_sub(1) as usize;
    if index < targets.len() {
        assert(string_views(targets@)[index as int] == targets@[index as int]@);
        Ok(targets[index].clone())
    } else {
        let mut m: Vec<char> = Vec::new();
        push_str(&mut m, "DOCX 内未找到可 OCR 的第 ");
        push_chars(&mut m, decimal_chars(image_number as u64).as_slice());
        push_str(&mut m, " 张内嵌图片");
        Err(AppError::Filesystem(string_of(m.as_slice())))
    }
}

/// The bytes of an embedded image of a Word document, refused when it is larger than
/// `MAX_OCR_INPUT_BYTES` uncompressed.
pub fn docx_image_bytes(archive: &[u8], target: &str) -> (r: Result<Vec<u8>, AppError>)
    ensures
        r is Ok <==> (zip_entry_size(archive@, target@) matches Some(n) && n <= MAX_OCR_INPUT_BYTES
            && zip_entry_bytes(archive@, target@) is Some),
        r matches Ok(bytes) ==> zip_entry_bytes(archive@, target@) == Some(bytes@),
        r matches Err(e) ==> e is Filesystem,
{
    let size = match zip_read_size(archive, target) {
        Ok(n) => n,
        Err(e) => return Err(image_read_failure(target, &e)),
    };
    if size > MAX_OCR_INPUT_BYTES {
        return Err(AppError::Filesystem(text("OCR_INPUT_TOO_LARGE：DOCX 内嵌图片过大，当前上限为 50 MB")));
    }
    match zip_read_bytes(archive, target) {
        Ok(bytes) => Ok(bytes),
        Err(e) => Err(image_read_failure(target, &e)),
    }
}

/// The text that opens the message of a failed read of the embedded image `target`: it
/// names the step that failed (decompressing the image, the container, or opening the
/// image, which is named).
pub open spec fn image_failure_prefix(target: Seq<char>, error: ZipReadError) -> Seq<char> {
    match error {
        ZipReadError::Read(_) => "无法解压 DOCX 内嵌图片："@,
        ZipReadError::Archive(_) => "无法读取 DOCX 压缩结构："@,
        ZipReadError::Entry(_) => "无法读取 DOCX 内嵌图片 "@ + target + "："@,
    }
}

/// The message of a failed read of an embedded image: a `Filesystem` error whose text is
/// the prefix for the failed step, then the outside error's own message.
fn image_read_failure(target: &str, error: &ZipReadError) -> (r: AppError)
    ensures
        r matches AppError::Filesystem(m) && has_prefix(m@, image_failure_prefix(target@, *error)),
{
    let mut m: Vec<char> = Vec::new();
    let ghost prefix = image_failure_prefix(target@, *error);
    match error {
        ZipReadError::Read(e) => {
            push_str(&mut m, "无法解压 DOCX 内嵌图片：");
            assert(m@ == prefix);
            push_str(&mut m, io_error_text(e).as_str());
        },
        ZipReadError::Archive(e) => {
            push_str(&mut m, "无法读取 DOCX 压缩结构：");
            assert(m@ == prefix);
            push_str(&mut m, zip_error_text(e).as_str());
        },
        ZipReadError::Entry(e) => {
            push_str(&mut m, "无法读取 DOCX 内嵌图片 ");
            push_str(&mut m, target);
            push_str(&mut m, "：");
            assert(m@ =~= prefix);
            push_str(&mut m, zip_error_text(e).as_str());
        },
    }
    assert(m@.take(prefix.len() as int) =~= prefix);
    AppError::Filesystem(string_of(m.as_slice()))
}

/// The extension of a path's file name, as `Path::extension` gives it: what follows the last
/// `.` of the file name, none when the name has no `.` past its first character.
pub open spec fn path_extension(path: Seq<char>) -> Option<Seq<char>> {
    let name = match last_index_of(path, '/') {
        Some(i) => path.skip(i + 1),
        None => path,
    };
    match last_index_of(name, '.') {
        Some(i) => if i > 0 {
            Some(name.skip(i + 1))
        } else {
            None
        },
        None => None,
    }
}

/// The extension of an embedded image: its file extension lowercased, `png` when it has none.
pub open spec fn image_extension_of(target: Seq<char>) -> Seq<char> {
    match path_extension(target) {
        Some(e) => ascii_lowered(e),
        None => "png"@,
    }
}

/// The extension of an embedded image.
pub fn image_extension(target: &str) -> (r: String)
    ensures
        r@ == image_extension_of(target@),
{
    let v = chars_of(target);
    let vlen = v.len();
    let name = match last_index_of_char(v.as_slice(), '/') {
        Some(i) => {
            proof {
                lemma_last_index_of(v@, '/');
            }
            slice_chars(v.as_slice(), i + 1, vlen)
        },
        None => v,
    };
    let nlen = name.len();
    match last_index_of_char(name.as_slice(), '.') {
        Some(i) => {
            proof {
                lemma_last_index_of(name@, '.');
            }
            if i > 0 {
                let e = slice_chars(name.as_slice(), i + 1, nlen);
                assert(e@ =~= name@.skip(i + 1));
                string_of(ascii_lower_chars(e.as_slice()).as_slice())
            } else {
                text("png")
            }
        },
        None => text("png"),
    }
}

/// What an embedded-image OCR needs: the image's number, its path in the archive, its
/// extension, and the file name it is written to.
#[derive(Debug, Clone)]
pub struct DocxImagePlan {
    pub image_number: u32,
    pub target: String,
    pub extension: String,
    pub file_name: String,
}

/// The file an embedded image is written to for OCR: `embedded-image-NNN.ext`.
pub open spec fn image_file_name(image_number: u32, extension: Seq<char>) -> Seq<char> {
    "embedded-image-"@ + zero_padded(decimal(image_number as nat), 3) + "."@ + extension
}

/// The message when OCR does not read the format of a Word document's `n`-th image.
pub open spec fn unsupported_image_message(n: u32, extension: Seq<char>) -> Seq<char> {
    "DOCX 第 "@ + decimal(n as nat) + " 张内嵌图片格式 ."@ + extension + " 当前不支持 OCR"@
}

/// Plans the OCR of the Word image a locator points at (`…#image-N`): the locator must name
/// an image, the document must hold it, and OCR must read its format.
pub fn plan_docx_embedded_image_ocr(source_locator: &str, archive: &[u8]) -> (r: Result<DocxImagePlan, AppError>)
    ensures
        image_number_of(source_locator@) is None ==> (r matches Err(AppError::Filesystem(m)) && m@
            == "DOCX 内嵌图片 OCR 缺少有效的 #image-N 来源定位"@),
        r is Ok <==> (image_number_of(source_locator@) matches Some(n) && docx_image_target_of(archive@, n) matches Some(
            t,
        ) && is_ocr_image_extension(image_extension_of(t))),
        r matches Ok(p) ==> {
            &&& docx_image_target_of(archive@, p.image_number) == Some(p.target@)
            &&& image_number_of(source_locator@) == Some(p.image_number)
            &&& p.extension@ == image_extension_of(p.target@)
            &&& is_ocr_image_extension(p.extension@)
            &&& p.file_name@ == image_file_name(p.image_number, p.extension@)
        },
        image_number_of(source_locator@) is Some && zip_names(archive@) is Some && zip_entry_text(
            archive@,
            "word/document.xml"@,
        ) is Some && docx_image_target_of(archive@, image_number_of(source_locator@)->0) is None ==> (r matches Err(
            AppError::Filesystem(m),
        ) && m@ == missing_image_message(image_number_of(source_locator@)->0)),
        image_number_of(source_locator@) is Some && docx_image_target_of(
            archive@,
            image_number_of(source_locator@)->0,
        ) is Some && !is_ocr_image_extension(
            image_extension_of(docx_image_target_of(archive@, image_number_of(source_locator@)->0)->0),
        ) ==> (r matches Err(AppError::Filesystem(m)) && m@ == unsupported_image_message(
            image_number_of(source_locator@)->0,
            image_extension_of(docx_image_target_of(archive@, image_number_of(source_locator@)->0)->0),
        )),
        r matches Err(e) ==> e is Filesystem,
{
    let image_number = match embedded_image_number_from_locator(source_locator) {
        Some(n) => n,
        None => return Err(AppError::Filesystem(text("DOCX 内嵌图片 OCR 缺少有效的 #image-N 来源定位"))),
    };
    let target = docx_embedded_image_target(archive, image_number)?;
    let extension = image_extension(target.as_str());
    if !is_ocr_supported_docx_image_extension(extension.as_str()) {
        let mut m: Vec<char> = Vec::new();
        push_str(&mut m, "DOCX 第 ");
        push_chars(&mut m, decimal_chars(image_number as u64).as_slice());
        push_str(&mut m, " 张内嵌图片格式 .");
        push_str(&mut m, extension.as_str());
        push_str(&mut m, " 当前不支持 OCR");
        assert(m@ =~= unsupported_image_message(image_number, extension@));
        return Err(AppError::Filesystem(string_of(m.as_slice())));
    }
    let mut file_name: Vec<char> = Vec::new();
    push_str(&mut file_name, "embedded-image-");
    push_chars(&mut file_name, padded_decimal_chars(image_number as u64, 3).as_slice());
    push_str(&mut file_name, ".");
    push_str(&mut file_name, extension.as_str());
    assert(file_name@ =~= image_file_name(image_number, extension@));
    Ok(DocxImagePlan { image_number, target, extension, file_name: string_of(file_name.as_slice()) })
}

/// An OCR request for a file, after checking its inputs (see `validate_ocr_inputs`).
pub fn prepare_file_ocr_request(
    file_path: String,
    source_locator: &str,
    model_dir: String,
    tier: &str,
    max_pdf_pages: u32,
    max_image_pixels: u64,
    file_exists: bool,
    file_size: u64,
    model_dir_exists: bool,
    present_model_dirs: &[String],
    present_model_files: &[String],
) -> (r: Result<PreparedOcrRequest, AppError>)
    ensures
        r is Ok <==> validate_ocr_inputs_ok(file_exists, file_size, model_dir_exists, tier@, texts(present_model_dirs@), texts(present_model_files@)),
        r matches Ok(p) ==> {
            &&& p.request.file_path == file_path
            &&& p.request.model_dir == model_dir
            &&& p.request.tier@ == tier@
            &&& p.request.max_pdf_pages == max_pdf_pages
            &&& p.request.max_image_pixels == max_image_pixels
            &&& p.request.progress
            &&& p.request.temp_dir is None
            &&& p.source_locator@ == source_locator@
        },
{
    validate_ocr_inputs(file_exists, file_size, model_dir_exists, tier, present_model_dirs, present_model_files)?;
    Ok(
        PreparedOcrRequest {
            request: build_ocr_request(file_path, model_dir, tier, max_pdf_pages, max_image_pixels),
            source_locator: text(source_locator),
        },
    )
}

/// Whether the inputs of an OCR run pass every check of `validate_ocr_inputs`.
pub open spec fn validate_ocr_inputs_ok(
    file_exists: bool,
    file_size: u64,
    model_dir_exists: bool,
    tier: Seq<char>,
    present_model_dirs: Seq<Seq<char>>,
    present_model_files: Seq<Seq<char>>,
) -> bool {
    &&& file_exists
    &&& file_size <= MAX_OCR_INPUT_BYTES
    &&& model_dir_exists
    &&& absent_from(ocr_models(tier), present_model_dirs, 2).len() == 0
    &&& absent_from(ocr_model_file_paths(tier), present_model_files, 6).len() == 0
}

} // verus!
