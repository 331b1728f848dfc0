//! Parsing a file of a knowledge space into a document: text and Markdown files, PDF pages,
//! Word bodies and Excel workbooks with their table insights.
use vstd::prelude::*;

use crate::archive::decode_utf8_lossy;
use crate::archive::io_error_text;
use crate::archive::utf8_lossy;
use crate::archive::entry_text;
use crate::archive::names_of;
use crate::archive::zip_file_names;
use crate::archive::zip_entry_text;
use crate::archive::zip_error_text;
use crate::archive::zip_names;
use crate::archive::zip_read_text;
use crate::archive::ZipReadError;
use crate::text::char_count;
use crate::text::chars_eq;
use crate::text::chars_of;
use crate::text::ends_with_chars;
use crate::text::file_name_of;
use crate::text::display_file_name;
use crate::text::has_prefix;
use crate::text::has_suffix;
use crate::text::join_strings;
use crate::text::join_with;
use crate::text::line_count;
use crate::text::nonblank_lines;
use crate::text::normalize_chars;
use crate::text::normalized;
use crate::text::push_chars;
use crate::text::push_str;
use crate::text::starts_with_chars;
use crate::text::string_of;
use crate::text::string_views;
use crate::text::to_lowercase;
use crate::text::truncate_chars_of;
use crate::text::truncated;
use crate::text::unicode_lowercase;
use crate::pdf::pdf_text;
use crate::pdf::pdf_text_of;
use crate::xml::trim_start_char;
use crate::xml::xml_text;
use crate::xml::xml_text_chars;
use crate::sheet::parse_shared_strings;
use crate::sheet::shared_strings_of;
use crate::sheet::sheet_order;
use crate::sheet::table_insight_of;
use crate::sheet::worksheet_sort_key;
use crate::sheet::worksheet_table_insight;
use crate::error::AppError;
use crate::models::FileParseCandidate;
use crate::models::ParsedDocument;
use crate::models::ParsedDocumentSegment;
use crate::models::ParsedEvidenceMetadata;
use crate::models::ParsedTableInsight;

verus! {

/// The most characters of body text kept for a document.
pub const MAX_BODY_CHARS: usize = 60000;

/// The number of characters of a document's summary.
pub const SUMMARY_CHARS: usize = 180;

/// How a file is parsed, by its extension.
#[derive(Debug, Clone, Copy, PartialEq, Eq, Structural)]
pub enum FileKind {
    PlainText,
    Word,
    Workbook,
    Pdf,
    Unsupported,
}

/// The kind of a file: its extension without leading dots, lowercased, decides.
pub open spec fn file_kind_of(extension: Seq<char>) -> FileKind {
    let e = unicode_lowercase(trim_start_char(extension, '.'));
    if e == "md"@ || e == "txt"@ {
        FileKind::PlainText
    } else if e == "docx"@ {
        FileKind::Word
    } else if e == "xlsx"@ {
        FileKind::Workbook
    } else if e == "pdf"@ {
        FileKind::Pdf
    } else {
        FileKind::Unsupported
    }
}

/// The kind of a file, by its extension.
pub fn file_kind(extension: &str) -> (r: FileKind)
    ensures
        r == file_kind_of(extension@),
{
    let v = chars_of(extension);
    let mut i: usize = 0;
    assert(v@.skip(0) =~= v@);
    while i < v.len() && v[i] == '.'
        invariant
            i <= v.len(),
            trim_start_char(v@, '.') == trim_start_char(v@.skip(i as int), '.'),
        decreases v.len() - i,
    {
        assert(v@.skip(i as int).drop_first() =~= v@.skip(i + 1));
        i = i + 1;
    }
    let rest = string_of(crate::text::slice_chars(v.as_slice(), i, v.len()).as_slice());
    assert(rest@ =~= v@.skip(i as int));
    let lower = to_lowercase(rest.as_str());
    let e = chars_of(lower.as_str());
    if chars_eq(e.as_slice(), chars_of("md").as_slice()) || chars_eq(e.as_slice(), chars_of("txt").as_slice()) {
        FileKind::PlainText
    } else if chars_eq(e.as_slice(), chars_of("docx").as_slice()) {
        FileKind::Word
    } else if chars_eq(e.as_slice(), chars_of("xlsx").as_slice()) {
        FileKind::Workbook
    } else if chars_eq(e.as_slice(), chars_of("pdf").as_slice()) {
        FileKind::Pdf
    } else {
        FileKind::Unsupported
    }
}

/// A text made of the characters of a literal.
fn text(value: &str) -> (r: String)
    ensures
        r@ == value@,
{
    string_of(chars_of(value).as_slice())
}

/// The message for a file kind that is not parsed.
pub open spec fn unsupported_message(extension: Seq<char>) -> Seq<char> {
    "暂不支持解析 "@ + extension + " 文件"@
}

/// The message for a file without indexable text.
pub open spec fn no_text_message(relative_path: Seq<char>) -> Seq<char> {
    "没有从 "@ + relative_path + " 提取到可索引文本"@
}

/// The page segment of a PDF: its text as page 1 of 1, with line and character counts.
pub open spec fn pdf_segment_ok(segment: ParsedDocumentSegment, relative_path: Seq<char>, text: Seq<char>) -> bool {
    &&& segment.title@ == file_name_of(relative_path) + " · 第 1 页"@
    &&& segment.body@ == text
    &&& segment.source_locator@ == relative_path + "#page-001"@
    &&& segment.evidence matches Some(e) && {
        &&& e.kind matches Some(k) && k@ == "pdf_page"@
        &&& e.page_number == Some(1u32)
        &&& e.page_count == Some(1u32)
        &&& e.image_number is None
        &&& e.line_count == Some(
            (if nonblank_lines(text) == 0 {
                1
            } else if nonblank_lines(text) <= u32::MAX {
                nonblank_lines(text)
            } else {
                u32::MAX as nat
            }) as u32,
        )
        &&& e.char_count == Some((if text.len() <= u32::MAX { text.len() } else { u32::MAX as nat }) as u32)
        &&& e.confidence_percent is None
    }
}

/// Whether `document` is the document of `relative_path` with the extracted text `raw`: the
/// file name as title, the normalised text cut to `MAX_BODY_CHARS` as body, its first
/// `SUMMARY_CHARS` characters as summary, and the path as locator.
pub open spec fn document_from_text(document: ParsedDocument, relative_path: Seq<char>, raw: Seq<char>) -> bool {
    &&& document.title@ == file_name_of(relative_path)
    &&& document.body@ == truncated(normalized(raw), MAX_BODY_CHARS as int)
    &&& document.summary@ == truncated(normalized(raw), SUMMARY_CHARS as int)
    &&& document.source_locator@ == relative_path
}

/// Builds the document from the extracted text, refusing text that normalises to nothing.
fn finish_document(
    relative_path: &str,
    raw: &[char],
    segments: Vec<ParsedDocumentSegment>,
    table_insights: Vec<ParsedTableInsight>,
) -> (r: Result<ParsedDocument, AppError>)
    ensures
        normalized(raw@).len() == 0 ==> (r matches Err(AppError::Filesystem(m)) && m@ == no_text_message(relative_path@)),
        normalized(raw@).len() > 0 ==> (r matches Ok(d) && document_from_text(d, relative_path@, raw@)
            && d.segments == segments && d.table_insights == table_insights),
{
    let body = normalize_chars(raw);
    if body.len() == 0 {
        let mut m: Vec<char> = Vec::new();
        push_str(&mut m, "没有从 ");
        push_str(&mut m, relative_path);
        push_str(&mut m, " 提取到可索引文本");
        assert(m@ =~= no_text_message(relative_path@));
        return Err(AppError::Filesystem(string_of(m.as_slice())));
    }
    Ok(
        ParsedDocument {
            title: display_file_name(relative_path),
            summary: string_of(truncate_chars_of(body.as_slice(), SUMMARY_CHARS).as_slice()),
            body: string_of(truncate_chars_of(body.as_slice(), MAX_BODY_CHARS).as_slice()),
            source_locator: text(relative_path),
            segments,
            table_insights,
        },
    )
}

/// The page segment of a PDF whose text is `text`.
fn pdf_page_segment(relative_path: &str, text_chars: &[char]) -> (r: ParsedDocumentSegment)
    ensures
        pdf_segment_ok(r, relative_path@, text_chars@),
{
    let body = string_of(text_chars);
    let mut title: Vec<char> = Vec::new();
    push_str(&mut title, display_file_name(relative_path).as_str());
    push_str(&mut title, " · 第 1 页");
    let mut locator: Vec<char> = Vec::new();
    push_str(&mut locator, relative_path);
    push_str(&mut locator, "#page-001");
    let lines = line_count(body.as_str());
    let chars = char_count(body.as_str());
    ParsedDocumentSegment {
        title: string_of(title.as_slice()),
        body,
        source_locator: string_of(locator.as_slice()),
        evidence: Some(
            ParsedEvidenceMetadata {
                kind: Some(text("pdf_page")),
                page_number: Some(1),
                page_count: Some(1),
                image_number: None,
                line_count: Some(lines),
                char_count: Some(chars),
                confidence_percent: None,
            },
        ),
    }
}

/// The message of a failure to read a ZIP container or entry: `prefix` and the outside
/// error's own message.
fn zip_failure_message(prefix: &str, error: &ZipReadError) -> (r: String)
    ensures
        r@.len() >= prefix@.len(),
        r@.take(prefix@.len() as int) == prefix@,
{
    let mut m: Vec<char> = Vec::new();
    push_str(&mut m, prefix);
    let detail = match error {
        ZipReadError::Archive(e) => zip_error_text(e),
        ZipReadError::Entry(e) => zip_error_text(e),
        ZipReadError::Read(e) => io_error_text(e),
    };
    let ghost head = m@;
    push_str(&mut m, detail.as_str());
    assert(m@.take(prefix@.len() as int) =~= head);
    string_of(m.as_slice())
}

/// The prefix for the step of a ZIP read that failed: opening the container, opening the
/// entry, or reading its content.
pub open spec fn zip_failure_prefix(
    archive_prefix: Seq<char>,
    entry_prefix: Seq<char>,
    read_prefix: Seq<char>,
    error: ZipReadError,
) -> Seq<char> {
    match error {
        ZipReadError::Archive(_) => archive_prefix,
        ZipReadError::Entry(_) => entry_prefix,
        ZipReadError::Read(_) => read_prefix,
    }
}

/// The message of a failed ZIP read: a `Filesystem` error whose text is the prefix for the
/// step that failed, then the outside error's own message.
fn zip_read_failure(
    archive_prefix: &str,
    entry_prefix: &str,
    read_prefix: &str,
    error: &ZipReadError,
) -> (r: AppError)
    ensures
        r matches AppError::Filesystem(m) && has_prefix(
            m@,
            zip_failure_prefix(archive_prefix@, entry_prefix@, read_prefix@, *error),
        ),
{
    let prefix = match error {
        ZipReadError::Archive(_) => archive_prefix,
        ZipReadError::Entry(_) => entry_prefix,
        ZipReadError::Read(_) => read_prefix,
    };
    AppError::Filesystem(zip_failure_message(prefix, error))
}

/// The text of a Word document: the text of its `word/document.xml`.
pub open spec fn word_text(archive: Seq<u8>) -> Seq<char> {
    xml_text(entry_text(archive, "word/document.xml"@))
}

/// The text of a Word document, read from the bytes of the file.
pub fn read_docx_text(archive: &[u8]) -> (r: Result<Vec<char>, AppError>)
    ensures
        r is Ok <==> zip_entry_text(archive@, "word/document.xml"@) is Some,
        r matches Ok(t) ==> t@ == word_text(archive@),
        r matches Err(e) ==> e is Filesystem,
{
    match zip_read_text(archive, "word/document.xml") {
        Ok(xml) => Ok(xml_text_chars(chars_of(xml.as_str()).as_slice())),
        Err(error) => Err(zip_read_failure("无法读取压缩文档结构：", "无法读取 Word 正文：", "无法解析 Word 正文：", &error)),
    }
}

/// Whether an entry of a workbook is a worksheet part.
pub open spec fn is_sheet_part(name: Seq<char>) -> bool {
    has_prefix(name, "xl/worksheets/"@) && has_suffix(name, ".xml"@)
}

/// The shared-strings part of a workbook.
pub open spec fn shared_part_name() -> Seq<char> {
    "xl/sharedStrings.xml"@
}

/// The worksheet parts among the first `n` entry names, in directory order.
pub open spec fn sheet_names(names: Seq<Seq<char>>, n: int) -> Seq<Seq<char>>
    decreases n,
{
    if n <= 0 {
        seq![]
    } else if is_sheet_part(names[n - 1]) {
        sheet_names(names, n - 1).push(names[n - 1])
    } else {
        sheet_names(names, n - 1)
    }
}

/// Where a worksheet part goes among `sorted`: after the last part whose order is not above
/// its own.
pub open spec fn sheet_insert_position(sorted: Seq<Seq<char>>, name: Seq<char>) -> int
    decreases sorted.len(),
{
    if sorted.len() == 0 {
        0
    } else if sheet_order(sorted.last()) <= sheet_order(name) {
        sorted.len() as int
    } else {
        sheet_insert_position(sorted.drop_last(), name)
    }
}

/// Worksheet parts ordered by their sheet number (`sheetN.xml`), parts with equal order in
/// directory order.
pub open spec fn sorted_sheets(names: Seq<Seq<char>>) -> Seq<Seq<char>>
    decreases names.len(),
{
    if names.len() == 0 {
        seq![]
    } else {
        let sorted = sorted_sheets(names.drop_last());
        sorted.insert(sheet_insert_position(sorted, names.last()), names.last())
    }
}

/// The insert position lies within the sequence.
pub proof fn lemma_sheet_insert_position_range(sorted: Seq<Seq<char>>, name: Seq<char>)
    ensures
        0 <= sheet_insert_position(sorted, name) <= sorted.len(),
    decreases sorted.len(),
{
    if sorted.len() > 0 {
        lemma_sheet_insert_position_range(sorted.drop_last(), name);
    }
}

/// The text-of-part lines and table insights of the first `n` sorted worksheets: a sheet's
/// text when not empty, then its insight's body when it has one.
pub open spec fn sheet_parts(
    relative_path: Seq<char>,
    archive: Seq<u8>,
    sheets: Seq<Seq<char>>,
    shared: Seq<Seq<char>>,
    n: int,
) -> (Seq<Seq<char>>, Seq<(Seq<char>, Seq<char>, Seq<char>, Seq<char>)>)
    decreases n,
{
    if n <= 0 {
        (seq![], seq![])
    } else {
        let (parts, insights) = sheet_parts(relative_path, archive, sheets, shared, n - 1);
        let xml = entry_text(archive, sheets[n - 1]);
        let with_text = if xml_text(xml).len() > 0 {
            parts.push(xml_text(xml))
        } else {
            parts
        };
        match table_insight_of(relative_path, n as nat, xml, shared) {
            Some(insight) => (with_text.push(insight.1), insights.push(insight)),
            None => (with_text, insights),
        }
    }
}

/// The text of a workbook's shared strings part (empty when it has none).
pub open spec fn shared_xml_of(archive: Seq<u8>) -> Seq<char> {
    if names_of(archive).contains(shared_part_name()) {
        entry_text(archive, shared_part_name())
    } else {
        seq![]
    }
}

/// The body of a workbook and its table insights: the shared strings' text when not empty,
/// then, sheet by sheet in sheet order, each sheet's text and insight body, one per line.
pub open spec fn workbook_of(relative_path: Seq<char>, archive: Seq<u8>) -> (Seq<char>, Seq<(Seq<char>, Seq<char>, Seq<char>, Seq<char>)>) {
    let names = names_of(archive);
    let sheets = sorted_sheets(sheet_names(names, names.len() as int));
    let shared_xml = shared_xml_of(archive);
    let shared = shared_strings_of(shared_xml);
    let (parts, insights) = sheet_parts(relative_path, archive, sheets, shared, sheets.len() as int);
    let head = if xml_text(shared_xml).len() > 0 {
        seq![xml_text(shared_xml)]
    } else {
        seq![]
    };
    (join_with(head + parts, "\n"@), insights)
}

/// The body of a workbook and its table insights.
#[derive(Debug, Clone)]
pub struct XlsxAnalysis {
    pub body: String,
    pub table_insights: Vec<ParsedTableInsight>,
}

/// The views of table insights.
pub open spec fn insight_views(insights: Seq<ParsedTableInsight>) -> Seq<(Seq<char>, Seq<char>, Seq<char>, Seq<char>)> {
    insights.map_values(|t: ParsedTableInsight| (t.title@, t.body@, t.summary@, t.source_locator@))
}

/// The names of (name, text) pairs.
pub open spec fn pair_names(pairs: Seq<(String, String)>) -> Seq<Seq<char>> {
    pairs.map_values(|p: (String, String)| p.0@)
}

/// Whether each pair holds the text of the workbook entry it names.
pub open spec fn pairs_hold_entries(pairs: Seq<(String, String)>, archive: Seq<u8>) -> bool {
    forall|k: int| 0 <= k < pairs.len() ==> (#[trigger] pairs[k]).1@ == entry_text(archive, pairs[k].0@)
}

/// Orders worksheet parts (name and text) by sheet number, keeping the directory order of
/// equal ones.
fn sort_sheets(parts: Vec<(String, String)>, Ghost(archive): Ghost<Seq<u8>>) -> (r: Vec<(String, String)>)
    requires
        pairs_hold_entries(parts@, archive),
    ensures
        pair_names(r@) == sorted_sheets(pair_names(parts@)),
        pairs_hold_entries(r@, archive),
{
    let ghost all = pair_names(parts@);
    let mut rest = parts;
    let mut sorted: Vec<(String, String)> = Vec::new();
    let mut keys: Vec<usize> = Vec::new();
    let mut done: usize = 0;
    let total = rest.len();
    assert(all.take(0) =~= Seq::<Seq<char>>::empty());
    while rest.len() > 0
        invariant
            done + rest@.len() == all.len(),
            all.len() == total,
            pair_names(rest@) == all.skip(done as int),
            pair_names(sorted@) == sorted_sheets(all.take(done as int)),
            pairs_hold_entries(rest@, archive),
            pairs_hold_entries(sorted@, archive),
            keys@.len() == sorted@.len(),
            forall|k: int| 0 <= k < keys@.len() ==> #[trigger] keys@[k] == sheet_order(sorted@[k].0@),
        decreases rest@.len(),
    {
        let ghost rest_before = rest@;
        let part = rest.remove(0);
        assert(pair_names(rest_before)[0] == part.0@);
        assert(part.0@ == all[done as int]);
        assert(rest_before[0] == part);
        assert(pair_names(rest@) =~= pair_names(rest_before).drop_first());
        assert(all.skip(done as int).drop_first() =~= all.skip(done + 1));
        assert(pairs_hold_entries(rest@, archive)) by {
            assert forall|k: int| 0 <= k < rest@.len() implies (#[trigger] rest@[k]).1@ == entry_text(archive, rest@[k].0@) by {
                assert(rest@[k] == rest_before[k + 1]);
            }
        }
        let key = worksheet_sort_key(part.0.as_str());
        let ghost sv = pair_names(sorted@);
        let mut p: usize = sorted.len();
        assert(sv.take(p as int) =~= sv);
        while p > 0 && keys[p - 1] > key
            invariant
                p <= sorted@.len(),
                keys@.len() == sorted@.len(),
                sv == pair_names(sorted@),
                forall|k: int| 0 <= k < keys@.len() ==> #[trigger] keys@[k] == sheet_order(sorted@[k].0@),
                key == sheet_order(part.0@),
                sheet_insert_position(sv, part.0@) == sheet_insert_position(sv.take(p as int), part.0@),
            decreases p,
        {
            assert(sv.take(p as int).drop_last() =~= sv.take(p - 1));
            assert(sv.take(p as int).last() == sorted@[p - 1].0@);
            p = p - 1;
        }
        if p > 0 {
            assert(sv.take(p as int).last() == sorted@[p - 1].0@);
        }
        let ghost before = sorted@;
        let ghost before_keys = keys@;
        sorted.insert(p, part);
        keys.insert(p, key);
        assert(all.take(done + 1).drop_last() =~= all.take(done as int));
        assert(all.take(done + 1).last() == part.0@);
        assert(pair_names(sorted@) =~= sv.insert(p as int, part.0@));
        assert forall|k: int| 0 <= k < keys@.len() implies #[trigger] keys@[k] == sheet_order(sorted@[k].0@) by {
            if k < p {
                assert(keys@[k] == before_keys[k]);
            } else if k > p {
                assert(keys@[k] == before_keys[k - 1]);
            }
        }
        assert forall|k: int| 0 <= k < sorted@.len() implies (#[trigger] sorted@[k]).1@ == entry_text(archive, sorted@[k].0@) by {
            if k < p {
                assert(sorted@[k] == before[k]);
            } else if k > p {
                assert(sorted@[k] == before[k - 1]);
            }
        }
        done = done + 1;
    }
    assert(all.take(done as int) =~= all);
    sorted
}

/// Whether an entry of a workbook is read: a worksheet part or the shared strings part.
pub open spec fn is_workbook_part(name: Seq<char>) -> bool {
    is_sheet_part(name) || name == shared_part_name()
}

/// Whether a workbook can be read: its entries can be listed, and each worksheet part and
/// the shared strings part can be read as text.
pub open spec fn workbook_readable(archive: Seq<u8>) -> bool {
    &&& zip_names(archive) is Some
    &&& forall|k: int|
        0 <= k < names_of(archive).len() && is_workbook_part(#[trigger] names_of(archive)[k])
            ==> zip_entry_text(archive, names_of(archive)[k]) is Some
}

/// The body and table insights of a workbook, read from the bytes of the file; the first
/// entry that cannot be read ends the reading with an error.
pub fn read_xlsx_analysis(relative_path: &str, archive: &[u8]) -> (r: Result<XlsxAnalysis, AppError>)
    ensures
        r is Ok <==> workbook_readable(archive@),
        r matches Ok(a) ==> a.body@ == workbook_of(relative_path@, archive@).0 && insight_views(
            a.table_insights@,
        ) == workbook_of(relative_path@, archive@).1,
        r matches Err(e) ==> e is Filesystem,
{
    proof {
        reveal_strlit("xl/worksheets/");
        reveal_strlit(".xml");
        reveal_strlit("xl/sharedStrings.xml");
    }
    let all_names = match zip_file_names(archive) {
        Ok(n) => n,
        Err(e) => {
            let mut m: Vec<char> = Vec::new();
            push_str(&mut m, "无法读取压缩文档结构：");
            push_str(&mut m, zip_error_text(&e).as_str());
            return Err(AppError::Filesystem(string_of(m.as_slice())));
        },
    };
    let count = all_names.len();
    let ghost names = names_of(archive@);
    assert(names == string_views(all_names@));
    let sheet_prefix = chars_of("xl/worksheets/");
    let xml_suffix = chars_of(".xml");
    let shared_name = chars_of("xl/sharedStrings.xml");
    let mut sheets: Vec<(String, String)> = Vec::new();
    let mut shared_xml = String::new();
    let mut i: usize = 0;
    while i < count
        invariant
            i <= count,
            count == names.len(),
            count == all_names@.len(),
            names == names_of(archive@),
            names == string_views(all_names@),
            zip_names(archive@) is Some,
            sheet_prefix@ == "xl/worksheets/"@,
            xml_suffix@ == ".xml"@,
            shared_name@ == shared_part_name(),
            pair_names(sheets@) == sheet_names(names, i as int),
            pairs_hold_entries(sheets@, archive@),
            forall|k: int| 0 <= k < i && is_workbook_part(#[trigger] names[k]) ==> zip_entry_text(archive@, names[k]) is Some,
            shared_xml@ == if names.take(i as int).contains(shared_part_name()) {
                entry_text(archive@, shared_part_name())
            } else {
                Seq::<char>::empty()
            },
        decreases count - i,
    {
        let name = all_names[i].clone();
        assert(name@ == names[i as int]);
        let n = chars_of(name.as_str());
        let is_sheet = starts_with_chars(n.as_slice(), sheet_prefix.as_slice()) && ends_with_chars(n.as_slice(), xml_suffix.as_slice());
        let is_shared = chars_eq(n.as_slice(), shared_name.as_slice());
        assert(is_sheet == is_sheet_part(name@));
        assert(!has_prefix(shared_part_name(), "xl/worksheets/"@)) by {
            reveal_strlit("xl/worksheets/");
            reveal_strlit("xl/sharedStrings.xml");
            assert(shared_part_name().take(14)[3] != ("xl/worksheets/"@)[3]);
        }
        assert(names.take(i + 1) =~= names.take(i as int).push(name@));
        proof {
            let longer = names.take(i + 1);
            let shorter = names.take(i as int);
            if longer.contains(shared_part_name()) && !shorter.contains(shared_part_name()) {
                let k = choose|k: int| 0 <= k < longer.len() && longer[k] == shared_part_name();
                if k < i {
                    assert(shorter[k] == shared_part_name());
                }
            }
            if shorter.contains(shared_part_name()) {
                let k = choose|k: int| 0 <= k < shorter.len() && shorter[k] == shared_part_name();
                assert(longer[k] == shared_part_name());
            }
        }
        if is_sheet || is_shared {
            let xml = match zip_read_text(archive, name.as_str()) {
                Ok(x) => x,
                Err(e) => {
                    assert(is_workbook_part(names[i as int]));
                    assert(!workbook_readable(archive@));
                    return Err(zip_read_failure("无法读取压缩文档结构：", "无法读取 Excel 内容：", "无法解析 Excel XML：", &e));
                },
            };
            if is_shared {
                assert(names.take(i + 1)[i as int] == shared_part_name());
                shared_xml = xml;
            } else {
                let ghost before = sheets@;
                sheets.push((name, xml));
                assert(pair_names(sheets@) =~= pair_names(before).push(names[i as int]));
            }
        } else {
            assert(!is_workbook_part(names[i as int]));
        }
        i = i + 1;
    }
    assert(workbook_readable(archive@));
    assert(names.take(count as int) =~= names);
    let sorted = sort_sheets(sheets, Ghost(archive@));
    let shared = parse_shared_strings(shared_xml.as_str());
    let mut parts: Vec<String> = Vec::new();
    let shared_text = xml_text_chars(chars_of(shared_xml.as_str()).as_slice());
    if shared_text.len() > 0 {
        parts.push(string_of(shared_text.as_slice()));
    }
    let ghost head = string_views(parts@);
    assert(head =~= if xml_text(shared_xml@).len() > 0 {
        seq![xml_text(shared_xml@)]
    } else {
        Seq::<Seq<char>>::empty()
    });
    let ghost order = pair_names(sorted@);
    let ghost sv = string_views(shared@);
    let mut insights: Vec<ParsedTableInsight> = Vec::new();
    let mut k: usize = 0;
    while k < sorted.len()
        invariant
            k <= sorted@.len(),
            order == pair_names(sorted@),
            pairs_hold_entries(sorted@, archive@),
            sv == string_views(shared@),
            string_views(parts@) == head + sheet_parts(relative_path@, archive@, order, sv, k as int).0,
            insight_views(insights@) == sheet_parts(relative_path@, archive@, order, sv, k as int).1,
        decreases sorted@.len() - k,
    {
        assert(order[k as int] == sorted@[k as int].0@);
        let xml = &sorted[k].1;
        let sheet_text = xml_text_chars(chars_of(xml.as_str()).as_slice());
        if sheet_text.len() > 0 {
            let ghost before = parts@;
            parts.push(string_of(sheet_text.as_slice()));
            assert(string_views(parts@) =~= string_views(before).push(sheet_text@));
        }
        match worksheet_table_insight(relative_path, k + 1, xml.as_str(), &shared) {
            Some(insight) => {
                let ghost before = parts@;
                let ghost before_insights = insights@;
                let body = insight.body.clone();
                parts.push(body);
                insights.push(insight);
                assert(string_views(parts@) =~= string_views(before).push(insight.body@));
                assert(insight_views(insights@) =~= insight_views(before_insights).push(
                    (insight.title@, insight.body@, insight.summary@, insight.source_locator@),
                ));
            },
            None => {},
        }
        k = k + 1;
    }
    assert(pair_names(sorted@) == sorted_sheets(sheet_names(names, names.len() as int)));
    assert(shared_xml@ == shared_xml_of(archive@));
    assert(string_views(parts@) == head + sheet_parts(relative_path@, archive@, order, sv, order.len() as int).0);
    let body = join_strings(&parts, "\n");
    assert(body@ == workbook_of(relative_path@, archive@).0);
    Ok(XlsxAnalysis { body, table_insights: insights })
}

/// Whether a path, split into components, lies under the root: the root's components are
/// the path's first components.
pub open spec fn within_root(root: Seq<Seq<char>>, path: Seq<Seq<char>>) -> bool {
    root.len() <= path.len() && path.take(root.len() as int) == root
}

/// Refuses a file whose resolved path leaves the knowledge space's folder. Both paths are
/// given as their components.
pub fn check_within_root(root: &Vec<String>, path: &Vec<String>) -> (r: Result<(), AppError>)
    ensures
        within_root(string_views(root@), string_views(path@)) ==> r is Ok,
        !within_root(string_views(root@), string_views(path@)) ==> (r matches Err(AppError::PermissionDenied(m))
            && m@ == "文件路径超出知识库目录边界"@),
{
    if root.len() > path.len() {
        return Err(AppError::PermissionDenied(string_of(chars_of("文件路径超出知识库目录边界").as_slice())));
    }
    let mut i: usize = 0;
    while i < root.len()
        invariant
            i <= root.len(),
            root.len() <= path.len(),
            forall|k: int| 0 <= k < i ==> (#[trigger] root@[k])@ == path@[k]@,
        decreases root.len() - i,
    {
        if !chars_eq(chars_of(root[i].as_str()).as_slice(), chars_of(path[i].as_str()).as_slice()) {
            assert(string_views(path@).take(root@.len() as int)[i as int] != string_views(root@)[i as int]);
            return Err(AppError::PermissionDenied(string_of(chars_of("文件路径超出知识库目录边界").as_slice())));
        }
        i = i + 1;
    }
    assert(string_views(path@).take(root@.len() as int) =~= string_views(root@));
    Ok(())
}

/// Parses a file of a knowledge space, given the bytes read from it, by its extension: text
/// and Markdown as UTF-8 (invalid sequences replaced), PDF as one page of its literal strings
/// or readable runs, Word as the text of its body, Excel as its shared strings, sheets and
/// table insights. Other extensions, and files without indexable text, are refused.
pub fn parse_file(candidate: &FileParseCandidate, content: &[u8]) -> (r: Result<ParsedDocument, AppError>)
    ensures
        file_kind_of(candidate.extension@) == FileKind::Unsupported ==> (r matches Err(AppError::Filesystem(m))
            && m@ == unsupported_message(candidate.extension@)),
        file_kind_of(candidate.extension@) == FileKind::PlainText ==> {
            let raw = utf8_lossy(content@);
            &&& normalized(raw).len() == 0 ==> (r matches Err(AppError::Filesystem(m)) && m@ == no_text_message(
                candidate.relative_path@,
            ))
            &&& normalized(raw).len() > 0 ==> (r matches Ok(d) && document_from_text(d, candidate.relative_path@, raw)
                && d.segments@.len() == 0 && d.table_insights@.len() == 0)
        },
        file_kind_of(candidate.extension@) == FileKind::Pdf ==> {
            let raw = pdf_text(utf8_lossy(content@));
            &&& normalized(raw).len() == 0 ==> (r matches Err(AppError::Filesystem(m)) && m@ == no_text_message(
                candidate.relative_path@,
            ))
            &&& normalized(raw).len() > 0 ==> (r matches Ok(d) && document_from_text(d, candidate.relative_path@, raw)
                && d.segments@.len() == 1 && pdf_segment_ok(d.segments@[0], candidate.relative_path@, raw)
                && d.table_insights@.len() == 0)
        },
        file_kind_of(candidate.extension@) == FileKind::Word ==> {
            let readable = zip_entry_text(content@, "word/document.xml"@) is Some;
            let raw = word_text(content@);
            &&& !readable ==> (r matches Err(e) && e is Filesystem)
            &&& readable && normalized(raw).len() == 0 ==> (r matches Err(AppError::Filesystem(m)) && m@
                == no_text_message(candidate.relative_path@))
            &&& readable && normalized(raw).len() > 0 ==> (r matches Ok(d) && document_from_text(d, candidate.relative_path@, raw)
                && d.segments@.len() == 0 && d.table_insights@.len() == 0)
        },
        file_kind_of(candidate.extension@) == FileKind::Workbook ==> {
            let readable = workbook_readable(content@);
            let (raw, insights) = workbook_of(candidate.relative_path@, content@);
            &&& !readable ==> (r matches Err(e) && e is Filesystem)
            &&& readable && normalized(raw).len() == 0 ==> (r matches Err(AppError::Filesystem(m)) && m@
                == no_text_message(candidate.relative_path@))
            &&& readable && normalized(raw).len() > 0 ==> (r matches Ok(d) && document_from_text(d, candidate.relative_path@, raw)
                && d.segments@.len() == 0 && insight_views(d.table_insights@) == insights)
        },
{
    let relative_path = candidate.relative_path.as_str();
    match file_kind(candidate.extension.as_str()) {
        FileKind::PlainText => {
            let raw = decode_utf8_lossy(content);
            finish_document(relative_path, chars_of(raw.as_str()).as_slice(), Vec::new(), Vec::new())
        },
        FileKind::Pdf => {
            let raw = decode_utf8_lossy(content);
            let pdf = pdf_text_of(chars_of(raw.as_str()).as_slice());
            let mut segments: Vec<ParsedDocumentSegment> = Vec::new();
            segments.push(pdf_page_segment(relative_path, pdf.as_slice()));
            finish_document(relative_path, pdf.as_slice(), segments, Vec::new())
        },
        FileKind::Word => {
            let raw = read_docx_text(content)?;
            finish_document(relative_path, raw.as_slice(), Vec::new(), Vec::new())
        },
        FileKind::Workbook => {
            let analysis = read_xlsx_analysis(relative_path, content)?;
            let body = chars_of(analysis.body.as_str());
            finish_document(relative_path, body.as_slice(), Vec::new(), analysis.table_insights)
        },
        FileKind::Unsupported => {
            let mut m: Vec<char> = Vec::new();
            push_str(&mut m, "暂不支持解析 ");
            push_str(&mut m, candidate.extension.as_str());
            push_str(&mut m, " 文件");
            assert(m@ =~= unsupported_message(candidate.extension@));
            Err(AppError::Filesystem(string_of(m.as_slice())))
        },
    }
}

} // verus!
