//! Turning parsed documents into knowledge blocks: bounded chunks of text with titles,
//! locators and an evidence header.
use vstd::prelude::*;

use crate::text::char_count;
use crate::text::char_views;
use crate::text::chars_eq;
use crate::text::chars_of;
use crate::text::decimal;
use crate::text::decimal_chars;
use crate::text::first_chars;
use crate::text::is_whitespace;
use crate::text::is_ws;
use crate::text::join_chars;
use crate::text::join_with;
use crate::text::lemma_normalized_starts_solid;
use crate::text::lemma_trim_keeps_solid;
use crate::text::lemma_trim_len;
use crate::text::line_count;
use crate::text::normalize_chars;
use crate::text::normalized;
use crate::text::push_chars;
use crate::text::push_str;
use crate::text::slice_chars;
use crate::text::string_of;
use crate::text::take_chars_of;
use crate::text::trim_chars;
use crate::text::trimmed;
use crate::text::trim_start;
use crate::text::trim_end;
use crate::locator::append_source_block_locator;
use crate::locator::block_locator;
use crate::models::ParsedDocument;
use crate::models::ParsedDocumentSegment;
use crate::models::ParsedEvidenceMetadata;

verus! {

/// The most characters a knowledge block holds.
pub const KNOWLEDGE_BLOCK_MAX_CHARS: usize = 1800;

/// A chunk is cut at a sentence or word boundary only after this many characters.
pub const KNOWLEDGE_BLOCK_MIN_SPLIT_CHARS: usize = 900;

/// The most segments of one document that are stored.
pub const MAX_DOCUMENT_SEGMENTS: usize = 120;

/// The most characters of segment text stored for one document.
pub const MAX_DOCUMENT_SEGMENT_CHARS: usize = 60000;

/// Characters after which a chunk may end.
pub open spec fn is_boundary_char(c: char) -> bool {
    is_ws(c) || c == '。' || c == '！' || c == '？' || c == '；' || c == '.' || c == '!' || c
        == '?' || c == ';' || c == '\n' || c == '\r'
}

/// Whether a chunk may end after `character`.
pub fn is_chunk_boundary(character: char) -> (r: bool)
    ensures
        r == is_boundary_char(character),
{
    is_whitespace(character) || character == '。' || character == '！' || character == '？'
        || character == '；' || character == '.' || character == '!' || character == '?'
        || character == ';' || character == '\n' || character == '\r'
}

/// The last position in `lo..hi` holding a boundary character.
pub open spec fn last_boundary_in(cs: Seq<char>, lo: int, hi: int) -> Option<int>
    decreases hi - lo,
{
    if hi <= lo {
        None
    } else if is_boundary_char(cs[hi - 1]) {
        Some(hi - 1)
    } else {
        last_boundary_in(cs, lo, hi - 1)
    }
}

/// Where a chunk starting at `start` ends when it may not reach `target_end`: just after the
/// last boundary character at or beyond the minimum chunk size, or at `target_end`.
pub open spec fn chunk_end(cs: Seq<char>, start: int, target_end: int) -> int {
    let min_end = if start + KNOWLEDGE_BLOCK_MIN_SPLIT_CHARS < target_end {
        start + KNOWLEDGE_BLOCK_MIN_SPLIT_CHARS
    } else {
        target_end
    };
    match last_boundary_in(cs, min_end, target_end) {
        Some(k) => k + 1,
        None => target_end,
    }
}

pub proof fn lemma_last_boundary_in(cs: Seq<char>, lo: int, hi: int)
    ensures
        last_boundary_in(cs, lo, hi) matches Some(k) ==> lo <= k < hi,
    decreases hi - lo,
{
    if hi > lo && !is_boundary_char(cs[hi - 1]) {
        lemma_last_boundary_in(cs, lo, hi - 1);
    }
}

/// A chunk end lies after the minimum split point (or at the target) and never beyond it.
pub proof fn lemma_chunk_end_bounds(cs: Seq<char>, start: int, target_end: int)
    requires
        start < target_end,
    ensures
        start < chunk_end(cs, start, target_end) <= target_end,
{
    let min_end = if start + KNOWLEDGE_BLOCK_MIN_SPLIT_CHARS < target_end {
        start + KNOWLEDGE_BLOCK_MIN_SPLIT_CHARS
    } else {
        target_end
    };
    lemma_last_boundary_in(cs, min_end, target_end);
}

/// The end of a chunk that starts at `start` and would end at `target_end`.
pub fn find_chunk_boundary(characters: &[char], start: usize, target_end: usize) -> (r: usize)
    requires
        target_end <= characters@.len(),
    ensures
        r == chunk_end(characters@, start as int, target_end as int),
{
    let min_end = if target_end >= KNOWLEDGE_BLOCK_MIN_SPLIT_CHARS && start < target_end
        - KNOWLEDGE_BLOCK_MIN_SPLIT_CHARS {
        start + KNOWLEDGE_BLOCK_MIN_SPLIT_CHARS
    } else {
        target_end
    };
    assert(min_end as int == if start + KNOWLEDGE_BLOCK_MIN_SPLIT_CHARS < target_end {
        start + KNOWLEDGE_BLOCK_MIN_SPLIT_CHARS
    } else {
        target_end as int
    });
    let mut index = target_end;
    while index > min_end
        invariant
            min_end <= index <= target_end,
            target_end <= characters@.len(),
            last_boundary_in(characters@, min_end as int, target_end as int) == last_boundary_in(
                characters@,
                min_end as int,
                index as int,
            ),
            min_end as int == if start + KNOWLEDGE_BLOCK_MIN_SPLIT_CHARS < target_end {
                start + KNOWLEDGE_BLOCK_MIN_SPLIT_CHARS
            } else {
                target_end as int
            },
        decreases index,
    {
        if is_chunk_boundary(characters[index - 1]) {
            assert(last_boundary_in(characters@, min_end as int, index as int) == Some(
                index - 1,
            ));
            return index;
        }
        index = index - 1;
    }
    target_end
}

/// The first position at or after `i` that does not hold whitespace.
pub open spec fn skip_ws(cs: Seq<char>, i: int) -> int
    decreases cs.len() - i,
{
    if 0 <= i < cs.len() && is_ws(cs[i]) {
        skip_ws(cs, i + 1)
    } else {
        i
    }
}

pub proof fn lemma_skip_ws(cs: Seq<char>, i: int)
    requires
        0 <= i,
    ensures
        i <= skip_ws(cs, i),
        i <= cs.len() ==> skip_ws(cs, i) <= cs.len(),
    decreases cs.len() - i,
{
    if 0 <= i < cs.len() && is_ws(cs[i]) {
        lemma_skip_ws(cs, i + 1);
    }
}

/// Where the chunk starting at `start` ends.
pub open spec fn next_chunk_end(cs: Seq<char>, start: int) -> int {
    let target_end = if start + KNOWLEDGE_BLOCK_MAX_CHARS < cs.len() {
        start + KNOWLEDGE_BLOCK_MAX_CHARS
    } else {
        cs.len() as int
    };
    if target_end >= cs.len() {
        target_end
    } else {
        chunk_end(cs, start, target_end)
    }
}

/// The chunks of `cs` from position `start` on: each at most `KNOWLEDGE_BLOCK_MAX_CHARS`
/// characters, cut after a boundary character where one lies late enough, trimmed, and
/// with blank chunks left out.
pub open spec fn chunks_from(cs: Seq<char>, start: int) -> Seq<Seq<char>>
    decreases cs.len() - start,
{
    if start < 0 || start >= cs.len() {
        seq![]
    } else {
        let end = next_chunk_end(cs, start);
        let chunk = trimmed(cs.subrange(start, end));
        let next = skip_ws(cs, end);
        proof {
            lemma_chunk_end_bounds(cs, start, if start + KNOWLEDGE_BLOCK_MAX_CHARS < cs.len() {
                start + KNOWLEDGE_BLOCK_MAX_CHARS
            } else {
                cs.len() as int
            });
            lemma_skip_ws(cs, end);
        }
        let rest = if start < end { chunks_from(cs, next) } else { seq![] };
        if chunk.len() > 0 {
            seq![chunk] + rest
        } else {
            rest
        }
    }
}

/// The chunks a knowledge block body is split into: the normalized body when it is short
/// enough, otherwise its chunks.
pub open spec fn body_chunks(body: Seq<char>) -> Seq<Seq<char>> {
    let n = normalized(body);
    if n.len() <= KNOWLEDGE_BLOCK_MAX_CHARS {
        seq![n]
    } else {
        let c = chunks_from(n, 0);
        if c.len() == 0 {
            seq![n]
        } else {
            c
        }
    }
}

/// Splits a body into knowledge-block chunks.
pub fn split_knowledge_block_body(body: &str) -> (r: Vec<String>)
    ensures
        r@.len() == body_chunks(body@).len(),
        forall|k: int| 0 <= k < r@.len() ==> #[trigger] r@[k]@ == body_chunks(body@)[k],
{
    let chars = chars_of(body);
    let cs = normalize_chars(chars.as_slice());
    let n = cs.len();
    if n <= KNOWLEDGE_BLOCK_MAX_CHARS {
        let mut one: Vec<String> = Vec::new();
        one.push(string_of(cs.as_slice()));
        return one;
    }
    let mut chunks: Vec<String> = Vec::new();
    let mut start: usize = 0;
    while start < n
        invariant
            n == cs@.len(),
            start <= n,
            chunks@.len() + chunks_from(cs@, start as int).len() == chunks_from(cs@, 0).len(),
            forall|k: int|
                0 <= k < chunks@.len() ==> #[trigger] chunks@[k]@ == chunks_from(cs@, 0)[k],
            forall|k: int|
                0 <= k < chunks_from(cs@, start as int).len() ==> #[trigger] chunks_from(
                    cs@,
                    start as int,
                )[k] == chunks_from(cs@, 0)[chunks@.len() + k],
        decreases n - start,
    {
        let target_end = if n >= KNOWLEDGE_BLOCK_MAX_CHARS && start < n - KNOWLEDGE_BLOCK_MAX_CHARS {
            start + KNOWLEDGE_BLOCK_MAX_CHARS
        } else {
            n
        };
        let end = if target_end >= n {
            target_end
        } else {
            find_chunk_boundary(cs.as_slice(), start, target_end)
        };
        proof {
            lemma_chunk_end_bounds(cs@, start as int, target_end as int);
        }
        assert(end == next_chunk_end(cs@, start as int));
        let piece = slice_chars(cs.as_slice(), start, end);
        let chunk = trim_chars(piece.as_slice());
        let mut next = end;
        while next < n && is_whitespace(cs[next])
            invariant
                end <= next <= n,
                n == cs@.len(),
                skip_ws(cs@, end as int) == skip_ws(cs@, next as int),
            decreases n - next,
        {
            next = next + 1;
        }
        let ghost rest = chunks_from(cs@, next as int);
        assert(chunks_from(cs@, start as int) == if chunk@.len() > 0 {
            seq![chunk@] + rest
        } else {
            rest
        });
        if chunk.len() > 0 {
            assert(chunks_from(cs@, start as int)[0] == chunk@);
            assert(chunks_from(cs@, 0)[chunks@.len() as int] == chunk@);
            chunks.push(string_of(chunk.as_slice()));
            assert forall|k: int|
                0 <= k < rest.len() implies #[trigger] rest[k] == chunks_from(cs@, 0)[chunks@.len()
                + k] by {
                assert(chunks_from(cs@, start as int)[k + 1] == rest[k]);
            }
        }
        start = next;
    }
    if chunks.len() == 0 {
        chunks.push(string_of(cs.as_slice()));
    }
    chunks
}

/// A knowledge block before it is stored.
#[derive(Debug, Clone)]
pub struct DocumentKnowledgeBlock {
    pub title: String,
    pub body: String,
    pub source_locator: String,
}

/// The text content of a knowledge block.
pub ghost struct BlockText {
    pub title: Seq<char>,
    pub body: Seq<char>,
    pub source_locator: Seq<char>,
}

impl View for DocumentKnowledgeBlock {
    type V = BlockText;

    open spec fn view(&self) -> BlockText {
        BlockText { title: self.title@, body: self.body@, source_locator: self.source_locator@ }
    }
}

/// The body of a block: the chunk, preceded by the evidence header when there is one.
pub open spec fn block_body(chunk: Seq<char>, evidence: Option<Seq<char>>) -> Seq<char> {
    let body = trimmed(chunk);
    match evidence {
        Some(e) => if trimmed(e).len() > 0 {
            "证据范围："@ + trimmed(e) + "\n正文："@ + body
        } else {
            body
        },
        None => body,
    }
}

/// The `index`-th (from zero) of `total` blocks made from one source.
pub open spec fn block_of(
    title: Seq<char>,
    source_locator: Seq<char>,
    evidence: Option<Seq<char>>,
    chunk: Seq<char>,
    index: int,
    total: int,
) -> BlockText {
    BlockText {
        title: if total == 1 {
            title
        } else {
            title + " · 片段 "@ + decimal((index + 1) as nat) + "/"@ + decimal(total as nat)
        },
        body: block_body(chunk, evidence),
        source_locator: if total == 1 {
            source_locator
        } else {
            block_locator(source_locator, (index + 1) as nat)
        },
    }
}

/// The blocks made from one source's body.
pub open spec fn source_blocks(
    title: Seq<char>,
    body: Seq<char>,
    source_locator: Seq<char>,
    evidence: Option<Seq<char>>,
) -> Seq<BlockText> {
    let chunks = body_chunks(body);
    Seq::new(
        chunks.len(),
        |k: int| block_of(title, source_locator, evidence, chunks[k], k, chunks.len() as int),
    )
}

/// The blocks made from one source's body, each with an evidence header when `evidence_summary`
/// is not blank.
pub fn segmented_knowledge_blocks_with_evidence(
    title: &str,
    body: &str,
    source_locator: &str,
    evidence_summary: Option<&str>,
) -> (r: Vec<DocumentKnowledgeBlock>)
    ensures
        r@.map_values(|b: DocumentKnowledgeBlock| b@) == source_blocks(
            title@,
            body@,
            source_locator@,
            match evidence_summary {
                Some(e) => Some(e@),
                None => None,
            },
        ),
{
    let chunks = split_knowledge_block_body(body);
    let total = chunks.len();
    let ghost ev = match evidence_summary {
        Some(e) => Some(e@),
        None => None,
    };
    let ghost spec_blocks = source_blocks(title@, body@, source_locator@, ev);
    let summary_chars: Option<Vec<char>> = match evidence_summary {
        Some(e) => {
            let c = chars_of(e);
            let t = trim_chars(c.as_slice());
            if t.len() > 0 {
                Some(t)
            } else {
                None
            }
        },
        None => None,
    };
    let mut blocks: Vec<DocumentKnowledgeBlock> = Vec::new();
    let mut index: usize = 0;
    while index < total
        invariant
            index <= total,
            total == chunks@.len(),
            chunks@.len() == body_chunks(body@).len(),
            forall|k: int| 0 <= k < chunks@.len() ==> #[trigger] chunks@[k]@ == body_chunks(body@)[k],
            spec_blocks == source_blocks(title@, body@, source_locator@, ev),
            summary_chars matches Some(t) ==> ev matches Some(e) && t@ == trimmed(e) && t@.len()
                > 0,
            summary_chars is None ==> ev is None || trimmed(ev->0).len() == 0,
            blocks@.len() == index,
            forall|k: int| 0 <= k < index ==> #[trigger] blocks@[k]@ == spec_blocks[k],
        decreases total - index,
    {
        let block_number = index + 1;
        let block_title = if total == 1 {
            string_of(chars_of(title).as_slice())
        } else {
            let mut t = chars_of(title);
            push_str(&mut t, " · 片段 ");
            push_chars(&mut t, decimal_chars(block_number as u64).as_slice());
            push_str(&mut t, "/");
            push_chars(&mut t, decimal_chars(total as u64).as_slice());
            string_of(t.as_slice())
        };
        let block_locator_text = if total == 1 {
            string_of(chars_of(source_locator).as_slice())
        } else {
            append_source_block_locator(source_locator, block_number)
        };
        let chunk_chars = chars_of(chunks[index].as_str());
        let trimmed_body = trim_chars(chunk_chars.as_slice());
        let block_body_text = match &summary_chars {
            Some(t) => {
                let mut b: Vec<char> = Vec::new();
                push_str(&mut b, "证据范围：");
                push_chars(&mut b, t.as_slice());
                push_str(&mut b, "\n正文：");
                push_chars(&mut b, trimmed_body.as_slice());
                string_of(b.as_slice())
            },
            None => string_of(trimmed_body.as_slice()),
        };
        let block = DocumentKnowledgeBlock {
            title: block_title,
            body: block_body_text,
            source_locator: block_locator_text,
        };
        assert(block@ == spec_blocks[index as int]);
        blocks.push(block);
        index = index + 1;
    }
    assert(blocks@.map_values(|b: DocumentKnowledgeBlock| b@) =~= spec_blocks);
    blocks
}

/// The blocks made from one source's body, without an evidence header.
pub fn segmented_knowledge_blocks(title: &str, body: &str, source_locator: &str) -> (r: Vec<
    DocumentKnowledgeBlock,
>)
    ensures
        r@.map_values(|b: DocumentKnowledgeBlock| b@) == source_blocks(
            title@,
            body@,
            source_locator@,
            None,
        ),
{
    segmented_knowledge_blocks_with_evidence(title, body, source_locator, None)
}


/// Whether an optional text equals `lit`.
pub open spec fn opt_text_is(v: Option<String>, lit: Seq<char>) -> bool {
    v matches Some(t) && t@ == lit
}

/// The name of the source kind an evidence record describes.
pub open spec fn evidence_source_label(e: ParsedEvidenceMetadata) -> Seq<char> {
    if opt_text_is(e.kind, "ocr_page"@) {
        "OCR"@
    } else if opt_text_is(e.kind, "pdf_page"@) {
        "PDF"@
    } else if opt_text_is(e.kind, "table_section"@) {
        "表格"@
    } else if opt_text_is(e.kind, "embedded_image"@) {
        "文档图片"@
    } else {
        "文档"@
    }
}

/// The position part of an evidence summary: the image number, the page (of the page count),
/// or the page count alone.
pub open spec fn evidence_position(e: ParsedEvidenceMetadata) -> Seq<Seq<char>> {
    let label = evidence_source_label(e);
    match e.image_number {
        Some(n) => seq![label + " "@ + decimal(n as nat)],
        None => match e.page_number {
            Some(p) => match e.page_count {
                Some(c) => if c > 0 {
                    seq![label + " 第 "@ + decimal(p as nat) + "/"@ + decimal(c as nat) + " 页"@]
                } else {
                    seq![label + " 第 "@ + decimal(p as nat) + " 页"@]
                },
                None => seq![label + " 第 "@ + decimal(p as nat) + " 页"@],
            },
            None => match e.page_count {
                Some(c) => if c > 0 {
                    seq![label + " 共 "@ + decimal(c as nat) + " 页"@]
                } else {
                    seq![]
                },
                None => seq![],
            },
        },
    }
}

/// The parts of an evidence summary: position, line count, character count, confidence.
pub open spec fn evidence_parts(e: ParsedEvidenceMetadata) -> Seq<Seq<char>> {
    evidence_position(e) + (match e.line_count {
        Some(n) => if n > 0 { seq![decimal(n as nat) + " 行"@] } else { seq![] },
        None => seq![],
    }) + (match e.char_count {
        Some(n) => if n > 0 { seq![decimal(n as nat) + " 字"@] } else { seq![] },
        None => seq![],
    }) + (match e.confidence_percent {
        Some(c) => seq![
            "置信度 "@ + decimal(if c <= 100 { c as nat } else { 100 }) + "%"@,
        ],
        None => seq![],
    })
}

/// The one-line summary of an evidence record, or `None` when it says nothing.
pub open spec fn evidence_summary(e: ParsedEvidenceMetadata) -> Option<Seq<char>> {
    let parts = evidence_parts(e);
    if parts.len() == 0 {
        None
    } else {
        Some(join_with(parts, " · "@))
    }
}

fn text_is(v: &Option<String>, lit: &str) -> (r: bool)
    ensures
        r == opt_text_is(*v, lit@),
{
    match v {
        Some(t) => chars_eq(chars_of(t.as_str()).as_slice(), chars_of(lit).as_slice()),
        None => false,
    }
}

fn chars_num(a: Vec<char>, lit: &str, n: u64) -> (r: Vec<char>)
    ensures
        r@ == a@ + lit@ + decimal(n as nat),
{
    let mut out = a;
    push_str(&mut out, lit);
    push_chars(&mut out, decimal_chars(n).as_slice());
    out
}

fn num_with(n: u64, tail: &str) -> (r: Vec<char>)
    ensures
        r@ == decimal(n as nat) + tail@,
{
    let mut out = decimal_chars(n);
    push_str(&mut out, tail);
    out
}

/// The one-line summary of where a segment's text came from, e.g. `PDF 第 2/3 页 · 1 行 · 9 字`.
pub fn evidence_metadata_summary(evidence: &ParsedEvidenceMetadata) -> (r: Option<String>)
    ensures
        r matches Some(s) ==> evidence_summary(*evidence) == Some(s@),
        r is None ==> evidence_summary(*evidence) is None,
{
    let label: &str = if text_is(&evidence.kind, "ocr_page") {
        "OCR"
    } else if text_is(&evidence.kind, "pdf_page") {
        "PDF"
    } else if text_is(&evidence.kind, "table_section") {
        "表格"
    } else if text_is(&evidence.kind, "embedded_image") {
        "文档图片"
    } else {
        "文档"
    };
    assert(label@ == evidence_source_label(*evidence));
    let mut parts: Vec<Vec<char>> = Vec::new();
    if let Some(image_number) = evidence.image_number {
        parts.push(chars_num(chars_of(label), " ", image_number as u64));
    } else if let Some(page_number) = evidence.page_number {
        match evidence.page_count {
            Some(page_count) if page_count > 0 => {
                let mut p = chars_num(chars_of(label), " 第 ", page_number as u64);
                push_str(&mut p, "/");
                let mut p = chars_num(p, "", page_count as u64);
                let ghost before = p@;
                push_str(&mut p, " 页");
                proof {
                    reveal_strlit("");
                }
                assert(p@ =~= label@ + " 第 "@ + decimal(page_number as nat) + "/"@ + decimal(
                    page_count as nat,
                ) + " 页"@);
                parts.push(p);
            },
            _ => {
                let mut p = chars_num(chars_of(label), " 第 ", page_number as u64);
                push_str(&mut p, " 页");
                parts.push(p);
            },
        }
    } else if let Some(page_count) = evidence.page_count {
        if page_count > 0 {
            let mut p = chars_num(chars_of(label), " 共 ", page_count as u64);
            push_str(&mut p, " 页");
            parts.push(p);
        }
    }
    assert(char_views(parts@) =~= evidence_position(*evidence));
    let ghost position_parts = parts@;
    let mut tail: Vec<Vec<char>> = Vec::new();
    if let Some(line_count) = evidence.line_count {
        if line_count > 0 {
            tail.push(num_with(line_count as u64, " 行"));
        }
    }
    if let Some(char_count) = evidence.char_count {
        if char_count > 0 {
            tail.push(num_with(char_count as u64, " 字"));
        }
    }
    if let Some(confidence_percent) = evidence.confidence_percent {
        let c = if confidence_percent <= 100 { confidence_percent } else { 100 };
        let mut p = chars_num(chars_of("置信度 "), "", c as u64);
        proof {
            reveal_strlit("");
        }
        assert(p@ =~= "置信度 "@ + decimal(c as nat));
        push_str(&mut p, "%");
        tail.push(p);
    }
    let ghost tail_parts = tail@;
    parts.append(&mut tail);
    assert(parts@ =~= position_parts + tail_parts);
    assert(char_views(parts@) =~= evidence_parts(*evidence));
    if parts.len() == 0 {
        None
    } else {
        let sep = chars_of(" · ");
        let joined = join_chars(&parts, sep.as_slice());
        Some(string_of(joined.as_slice()))
    }
}

/// The evidence summary of an optional evidence record.
pub open spec fn segment_evidence_summary(e: Option<ParsedEvidenceMetadata>) -> Option<Seq<char>> {
    match e {
        Some(m) => evidence_summary(m),
        None => None,
    }
}

/// The blocks of `segs`, each segment's body bounded by what is left of `remaining` characters.
pub open spec fn segment_blocks(segs: Seq<ParsedDocumentSegment>, remaining: nat) -> Seq<BlockText>
    decreases segs.len(),
{
    if segs.len() == 0 || remaining == 0 {
        seq![]
    } else {
        let seg = segs[0];
        let bounded = first_chars(seg.body@, remaining as int);
        source_blocks(seg.title@, bounded, seg.source_locator@, segment_evidence_summary(seg.evidence))
            + segment_blocks(segs.drop_first(), (remaining - bounded.len()) as nat)
    }
}

/// The knowledge blocks stored for a parsed document: the blocks of its first
/// `MAX_DOCUMENT_SEGMENTS` segments within `MAX_DOCUMENT_SEGMENT_CHARS` characters, or, when
/// that gives nothing, the blocks of its whole body.
pub open spec fn document_blocks(document: ParsedDocument) -> Seq<BlockText> {
    let whole = source_blocks(document.title@, document.body@, document.source_locator@, None);
    if document.segments@.len() > 0 {
        let segs = if document.segments@.len() <= MAX_DOCUMENT_SEGMENTS {
            document.segments@
        } else {
            document.segments@.take(MAX_DOCUMENT_SEGMENTS as int)
        };
        let blocks = segment_blocks(segs, MAX_DOCUMENT_SEGMENT_CHARS as nat);
        if blocks.len() > 0 {
            blocks
        } else {
            whole
        }
    } else {
        whole
    }
}

/// The knowledge blocks stored for a parsed document.
pub fn document_knowledge_blocks(document: &ParsedDocument) -> (r: Vec<DocumentKnowledgeBlock>)
    ensures
        r@.map_values(|b: DocumentKnowledgeBlock| b@) == document_blocks(*document),
{
    if document.segments.len() > 0 {
        let count = if document.segments.len() <= MAX_DOCUMENT_SEGMENTS {
            document.segments.len()
        } else {
            MAX_DOCUMENT_SEGMENTS
        };
        let ghost segs = if document.segments@.len() <= MAX_DOCUMENT_SEGMENTS {
            document.segments@
        } else {
            document.segments@.take(MAX_DOCUMENT_SEGMENTS as int)
        };
        let mut remaining: usize = MAX_DOCUMENT_SEGMENT_CHARS;
        let mut blocks: Vec<DocumentKnowledgeBlock> = Vec::new();
        let mut i: usize = 0;
        assert(segs.skip(0) =~= segs);
        while i < count && remaining > 0
            invariant
                i <= count,
                count == segs.len(),
                count <= document.segments@.len(),
                forall|k: int| 0 <= k < count ==> #[trigger] segs[k] == document.segments@[k],
                remaining <= MAX_DOCUMENT_SEGMENT_CHARS,
                blocks@.map_values(|b: DocumentKnowledgeBlock| b@) + segment_blocks(
                    segs.skip(i as int),
                    remaining as nat,
                ) == segment_blocks(segs, MAX_DOCUMENT_SEGMENT_CHARS as nat),
            decreases count - i,
        {
            let segment = &document.segments[i];
            let body_chars = chars_of(segment.body.as_str());
            let bounded = take_chars_of(body_chars.as_slice(), remaining);
            let bounded_text = string_of(bounded.as_slice());
            let summary = match &segment.evidence {
                Some(e) => evidence_metadata_summary(e),
                None => None,
            };
            let summary_ref: Option<&str> = match &summary {
                Some(s) => Some(s.as_str()),
                None => None,
            };
            let ghost rest = segs.skip(i as int);
            assert(rest[0] == *segment);
            assert(rest.drop_first() =~= segs.skip(i + 1));
            let mut more = segmented_knowledge_blocks_with_evidence(
                segment.title.as_str(),
                bounded_text.as_str(),
                segment.source_locator.as_str(),
                summary_ref,
            );
            let ghost old_blocks = blocks@;
            let ghost more_view = more@.map_values(|b: DocumentKnowledgeBlock| b@);
            blocks.append(&mut more);
            assert(blocks@.map_values(|b: DocumentKnowledgeBlock| b@) =~= old_blocks.map_values(
                |b: DocumentKnowledgeBlock| b@,
            ) + more_view);
            remaining = remaining - bounded.len();
            i = i + 1;
        }
        proof {
            if i < count {
                assert(segment_blocks(segs.skip(i as int), remaining as nat) =~= Seq::<
                    BlockText,
                >::empty());
            } else {
                assert(segs.skip(i as int).len() == 0);
            }
        }
        assert(blocks@.map_values(|b: DocumentKnowledgeBlock| b@) =~= segment_blocks(
            segs,
            MAX_DOCUMENT_SEGMENT_CHARS as nat,
        ));
        if blocks.len() > 0 {
            return blocks;
        }
    }
    segmented_knowledge_blocks(
        document.title.as_str(),
        document.body.as_str(),
        document.source_locator.as_str(),
    )
}


proof fn lemma_chunks_from_bounded(cs: Seq<char>, start: int)
    ensures
        forall|k: int|
            0 <= k < chunks_from(cs, start).len() ==> 0 < #[trigger] chunks_from(cs, start)[k].len()
                <= KNOWLEDGE_BLOCK_MAX_CHARS,
    decreases cs.len() - start,
{
    if 0 <= start < cs.len() {
        let target_end = if start + KNOWLEDGE_BLOCK_MAX_CHARS < cs.len() {
            start + KNOWLEDGE_BLOCK_MAX_CHARS
        } else {
            cs.len() as int
        };
        lemma_chunk_end_bounds(cs, start, target_end);
        let end = next_chunk_end(cs, start);
        lemma_skip_ws(cs, end);
        lemma_chunks_from_bounded(cs, skip_ws(cs, end));
        lemma_trim_len(cs.subrange(start, end));
        let chunk = trimmed(cs.subrange(start, end));
        let rest = chunks_from(cs, skip_ws(cs, end));
        if chunk.len() > 0 {
            assert forall|k: int|
                0 <= k < chunks_from(cs, start).len() implies 0 < #[trigger] chunks_from(
                cs,
                start,
            )[k].len() <= KNOWLEDGE_BLOCK_MAX_CHARS by {
                if k > 0 {
                    assert(chunks_from(cs, start)[k] == rest[k - 1]);
                }
            }
        }
    }
}

proof fn lemma_skip_ws_stops(cs: Seq<char>, i: int, k: int)
    requires
        0 <= i <= k < cs.len(),
        !is_ws(cs[k]),
    ensures
        skip_ws(cs, i) <= k,
    decreases cs.len() - i,
{
    if i < k && is_ws(cs[i]) {
        lemma_skip_ws_stops(cs, i + 1, k);
    }
}

proof fn lemma_chunks_from_nonempty(cs: Seq<char>, start: int, k: int)
    requires
        0 <= start <= k < cs.len(),
        !is_ws(cs[k]),
    ensures
        chunks_from(cs, start).len() > 0,
    decreases cs.len() - start,
{
    let target_end = if start + KNOWLEDGE_BLOCK_MAX_CHARS < cs.len() {
        start + KNOWLEDGE_BLOCK_MAX_CHARS
    } else {
        cs.len() as int
    };
    lemma_chunk_end_bounds(cs, start, target_end);
    let end = next_chunk_end(cs, start);
    if k < end {
        lemma_trim_keeps_solid(cs.subrange(start, end), k - start);
    } else {
        lemma_skip_ws(cs, end);
        lemma_skip_ws_stops(cs, end, k);
        lemma_chunks_from_nonempty(cs, skip_ws(cs, end), k);
    }
}

/// The characters of `s` that are not whitespace, in order.
pub open spec fn visible(s: Seq<char>) -> Seq<char>
    decreases s.len(),
{
    if s.len() == 0 {
        seq![]
    } else if is_ws(s[0]) {
        visible(s.drop_first())
    } else {
        seq![s[0]] + visible(s.drop_first())
    }
}

/// The chunks written one after another.
pub open spec fn joined(chunks: Seq<Seq<char>>) -> Seq<char>
    decreases chunks.len(),
{
    if chunks.len() == 0 {
        seq![]
    } else {
        chunks[0] + joined(chunks.drop_first())
    }
}

proof fn lemma_visible_add(a: Seq<char>, b: Seq<char>)
    ensures
        visible(a + b) == visible(a) + visible(b),
    decreases a.len(),
{
    if a.len() == 0 {
        assert(a + b =~= b);
        assert(visible(a) =~= seq![]);
        assert(visible(a) + visible(b) =~= visible(b));
    } else {
        assert((a + b).drop_first() =~= a.drop_first() + b);
        assert((a + b)[0] == a[0]);
        lemma_visible_add(a.drop_first(), b);
        if !is_ws(a[0]) {
            assert(seq![a[0]] + (visible(a.drop_first()) + visible(b)) =~= (seq![a[0]] + visible(
                a.drop_first(),
            )) + visible(b));
        }
    }
}

proof fn lemma_visible_trim_start(s: Seq<char>)
    ensures
        visible(trim_start(s)) == visible(s),
    decreases s.len(),
{
    if s.len() > 0 && is_ws(s[0]) {
        lemma_visible_trim_start(s.drop_first());
    }
}

proof fn lemma_visible_trim_end(s: Seq<char>)
    ensures
        visible(trim_end(s)) == visible(s),
    decreases s.len(),
{
    if s.len() > 0 && is_ws(s.last()) {
        lemma_visible_trim_end(s.drop_last());
        assert(s =~= s.drop_last() + seq![s.last()]);
        lemma_visible_add(s.drop_last(), seq![s.last()]);
        assert(seq![s.last()].drop_first() =~= Seq::<char>::empty());
        assert(visible(Seq::<char>::empty()) =~= seq![]);
        assert(visible(seq![s.last()]) == visible(seq![s.last()].drop_first()));
        assert(visible(seq![s.last()]) =~= seq![]);
        assert(visible(s.drop_last()) + visible(seq![s.last()]) =~= visible(s.drop_last()));
    }
}

proof fn lemma_visible_ws_run(cs: Seq<char>, i: int)
    requires
        0 <= i <= cs.len(),
    ensures
        visible(cs.subrange(i, skip_ws(cs, i))) == Seq::<char>::empty(),
    decreases cs.len() - i,
{
    lemma_skip_ws(cs, i);
    if i < cs.len() && is_ws(cs[i]) {
        lemma_visible_ws_run(cs, i + 1);
        lemma_skip_ws(cs, i + 1);
        assert(cs.subrange(i, skip_ws(cs, i)).drop_first() =~= cs.subrange(i + 1, skip_ws(cs, i + 1)));
    } else {
        assert(cs.subrange(i, skip_ws(cs, i)) =~= Seq::<char>::empty());
    }
}

proof fn lemma_chunks_from_visible(cs: Seq<char>, start: int)
    requires
        0 <= start <= cs.len(),
    ensures
        visible(joined(chunks_from(cs, start))) == visible(cs.subrange(start, cs.len() as int)),
    decreases cs.len() - start,
{
    if start >= cs.len() {
        assert(cs.subrange(start, cs.len() as int) =~= Seq::<char>::empty());
    } else {
        let target_end = if start + KNOWLEDGE_BLOCK_MAX_CHARS < cs.len() {
            start + KNOWLEDGE_BLOCK_MAX_CHARS
        } else {
            cs.len() as int
        };
        lemma_chunk_end_bounds(cs, start, target_end);
        let end = next_chunk_end(cs, start);
        lemma_skip_ws(cs, end);
        let next = skip_ws(cs, end);
        let piece = cs.subrange(start, end);
        let chunk = trimmed(piece);
        let rest = chunks_from(cs, next);
        lemma_chunks_from_visible(cs, next);
        lemma_visible_trim_start(piece);
        lemma_visible_trim_end(trim_start(piece));
        lemma_visible_ws_run(cs, end);
        assert(cs.subrange(start, cs.len() as int) =~= piece + (cs.subrange(end, next) + cs.subrange(
            next,
            cs.len() as int,
        )));
        lemma_visible_add(cs.subrange(end, next), cs.subrange(next, cs.len() as int));
        lemma_visible_add(piece, cs.subrange(end, next) + cs.subrange(next, cs.len() as int));
        assert(visible(cs.subrange(end, next)) + visible(cs.subrange(next, cs.len() as int)) =~= visible(
            cs.subrange(next, cs.len() as int),
        ));
        if chunk.len() > 0 {
            assert((seq![chunk] + rest).drop_first() =~= rest);
            assert(joined(seq![chunk] + rest) == chunk + joined(rest));
            lemma_visible_add(chunk, joined(rest));
        } else {
            assert(chunk =~= Seq::<char>::empty());
            assert(visible(chunk) =~= seq![]);
            assert(visible(piece) =~= Seq::<char>::empty());
            assert(visible(piece) + visible(cs.subrange(next, cs.len() as int)) =~= visible(
                cs.subrange(next, cs.len() as int),
            ));
        }
    }
}

/// Splitting a body into chunks loses nothing but whitespace: the chunks, written one after
/// another, hold the characters of the normalized body that are not whitespace, in order.
pub proof fn law_chunks_keep_every_character(body: Seq<char>)
    ensures
        visible(joined(body_chunks(body))) == visible(normalized(body)),
{
    let n = normalized(body);
    assert(seq![n].drop_first() =~= Seq::<Seq<char>>::empty());
    assert(joined(Seq::<Seq<char>>::empty()) =~= seq![]);
    assert(joined(seq![n]) == n + joined(seq![n].drop_first()));
    assert(joined(seq![n]) =~= n);
    if n.len() > KNOWLEDGE_BLOCK_MAX_CHARS && chunks_from(n, 0).len() > 0 {
        lemma_chunks_from_visible(n, 0);
        assert(n.subrange(0, n.len() as int) =~= n);
    }
}

/// Every chunk of a body is non-empty, and when the normalized body is longer than a block
/// every chunk fits in a block.
pub proof fn law_chunks_fit_in_a_block(body: Seq<char>)
    ensures
        body_chunks(body).len() >= 1,
        normalized(body).len() > KNOWLEDGE_BLOCK_MAX_CHARS ==> forall|k: int|
            0 <= k < body_chunks(body).len() ==> 0 < #[trigger] body_chunks(body)[k].len()
                <= KNOWLEDGE_BLOCK_MAX_CHARS,
        normalized(body).len() <= KNOWLEDGE_BLOCK_MAX_CHARS ==> body_chunks(body) == seq![
            normalized(body),
        ],
{
    let n = normalized(body);
    if n.len() > KNOWLEDGE_BLOCK_MAX_CHARS {
        lemma_normalized_starts_solid(body);
        lemma_chunks_from_nonempty(n, 0, 0);
        lemma_chunks_from_bounded(n, 0);
    }
}

/// A source whose normalized body fits in one block becomes exactly one block, which keeps
/// the source's title and locator.
pub proof fn law_single_block_keeps_source(
    title: Seq<char>,
    body: Seq<char>,
    source_locator: Seq<char>,
    evidence: Option<Seq<char>>,
)
    requires
        normalized(body).len() <= KNOWLEDGE_BLOCK_MAX_CHARS,
    ensures
        source_blocks(title, body, source_locator, evidence).len() == 1,
        source_blocks(title, body, source_locator, evidence)[0].title == title,
        source_blocks(title, body, source_locator, evidence)[0].source_locator == source_locator,
        source_blocks(title, body, source_locator, evidence)[0].body == block_body(
            normalized(body),
            evidence,
        ),
{
    law_chunks_fit_in_a_block(body);
}

} // verus!
