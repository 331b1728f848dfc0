//! Search over knowledge blocks: query terms, excerpts, the merging of candidate lists and
//! the source-aware ranking of hits.
use vstd::prelude::*;

use crate::text::chars_eq;
use crate::text::chars_of;
use crate::text::find_chars;
use crate::text::find_first;
use crate::text::has_prefix;
use crate::text::is_whitespace;
use crate::text::is_ws;
use crate::text::lemma_find_from;
use crate::text::normalize_chars;
use crate::text::normalized;
use crate::text::push_chars;
use crate::text::push_str;
use crate::text::slice_chars;
use crate::text::split_chars;
use crate::text::split_on;
use crate::text::starts_with_chars;
use crate::text::string_of;
use crate::text::string_views;
use crate::text::to_lowercase;
use crate::text::trim_chars;
use crate::text::trimmed;
use crate::text::truncate_chars_of;
use crate::text::truncated;
use crate::text::unicode_lowercase;
use crate::locator::display_source_file_name;
use crate::locator::fragments;
use crate::locator::is_ocr_source_locator;
use crate::locator::ocr_fragment;
use crate::locator::source_file_name_of;
use crate::models::KnowledgeBlockContext;
use crate::models::KnowledgeBlockSearchHit;

verus! {

/// Punctuation that separates query terms.
pub open spec fn is_punct(c: char) -> bool {
    c == '，' || c == '。' || c == '、' || c == '；' || c == '：' || c == '？' || c == '！' || c
        == ',' || c == '.' || c == ';' || c == ':' || c == '?' || c == '!' || c == '"' || c
        == '\'' || c == '“' || c == '”' || c == '‘' || c == '’' || c == '(' || c == ')' || c
        == '（' || c == '）'
}

/// Whether `character` is punctuation that separates query terms.
pub fn is_query_punctuation(character: char) -> (r: bool)
    ensures
        r == is_punct(character),
{
    character == '，' || character == '。' || character == '、' || character == '；' || character
        == '：' || character == '？' || character == '！' || character == ',' || character == '.'
        || character == ';' || character == ':' || character == '?' || character == '!'
        || character == '"' || character == '\'' || character == '“' || character == '”'
        || character == '‘' || character == '’' || character == '(' || character == ')'
        || character == '（' || character == '）'
}

/// `s` without leading punctuation.
pub open spec fn strip_punct_start(s: Seq<char>) -> Seq<char>
    decreases s.len(),
{
    if s.len() > 0 && is_punct(s[0]) {
        strip_punct_start(s.drop_first())
    } else {
        s
    }
}

/// `s` without trailing punctuation.
pub open spec fn strip_punct_end(s: Seq<char>) -> Seq<char>
    decreases s.len(),
{
    if s.len() > 0 && is_punct(s.last()) {
        strip_punct_end(s.drop_last())
    } else {
        s
    }
}

/// A candidate term with surrounding punctuation and then whitespace removed.
pub open spec fn clean_term(s: Seq<char>) -> Seq<char> {
    trimmed(strip_punct_end(strip_punct_start(s)))
}

fn clean_term_chars(v: &[char]) -> (r: Vec<char>)
    ensures
        r@ == clean_term(v@),
{
    let mut i: usize = 0;
    assert(v@.skip(0) =~= v@);
    while i < v.len() && is_query_punctuation(v[i])
        invariant
            i <= v.len(),
            strip_punct_start(v@) == strip_punct_start(v@.skip(i as int)),
        decreases v.len() - i,
    {
        assert(v@.skip(i as int).drop_first() =~= v@.skip(i + 1));
        i = i + 1;
    }
    let mut j: usize = v.len();
    assert(v@.skip(i as int) =~= v@.subrange(i as int, j as int));
    while j > i && is_query_punctuation(v[j - 1])
        invariant
            i <= j <= v.len(),
            strip_punct_end(strip_punct_start(v@)) == strip_punct_end(
                v@.subrange(i as int, j as int),
            ),
        decreases j,
    {
        assert(v@.subrange(i as int, j as int).drop_last() =~= v@.subrange(i as int, j - 1));
        j = j - 1;
    }
    let middle = slice_chars(v, i, j);
    trim_chars(middle.as_slice())
}

/// Whether `terms` already holds `t`.
pub open spec fn has_term(terms: Seq<Seq<char>>, t: Seq<char>) -> bool {
    exists|k: int| 0 <= k < terms.len() && #[trigger] terms[k] == t
}

/// `terms` after offering the candidate `value`: its cleaned form is added when it has at
/// least two characters and is not there yet.
pub open spec fn with_term(terms: Seq<Seq<char>>, value: Seq<char>) -> Seq<Seq<char>> {
    let t = clean_term(value);
    if t.len() < 2 || has_term(terms, t) {
        terms
    } else {
        terms.push(t)
    }
}

/// Adds the cleaned `value` to `terms` unless it is shorter than two characters or already
/// there.
pub fn push_unique_term(terms: &mut Vec<String>, value: &str)
    ensures
        string_views(final(terms)@) == with_term(string_views(old(terms)@), value@),
{
    let v = chars_of(value);
    let term = clean_term_chars(v.as_slice());
    let ghost views = string_views(terms@);
    if term.len() < 2 {
        return;
    }
    let mut i: usize = 0;
    while i < terms.len()
        invariant
            i <= terms@.len(),
            views == string_views(terms@),
            term@ == clean_term(value@),
            term@.len() >= 2,
            forall|k: int| 0 <= k < i ==> #[trigger] views[k] != term@,
        decreases terms@.len() - i,
    {
        if chars_eq(chars_of(terms[i].as_str()).as_slice(), term.as_slice()) {
            assert(views[i as int] == term@);
            assert(has_term(views, term@));
            return;
        }
        i = i + 1;
    }
    assert(!has_term(views, term@));
    let ghost old_terms = terms@;
    terms.push(string_of(term.as_slice()));
    assert(string_views(terms@) =~= views.push(term@));
}

/// Characters at which a query is cut into parts.
pub open spec fn is_query_separator(c: char) -> bool {
    is_ws(c) || is_punct(c)
}

/// The parts of a query between separator characters (empty parts included).
pub open spec fn query_parts(s: Seq<char>) -> Seq<Seq<char>>
    decreases s.len(),
{
    if s.len() == 0 {
        seq![seq![]]
    } else {
        let pieces = query_parts(s.drop_last());
        if is_query_separator(s.last()) {
            pieces.push(seq![])
        } else {
            pieces.update(pieces.len() - 1, pieces.last().push(s.last()))
        }
    }
}

proof fn lemma_query_parts_nonempty(s: Seq<char>)
    ensures
        query_parts(s).len() >= 1,
    decreases s.len(),
{
    if s.len() > 0 {
        lemma_query_parts_nonempty(s.drop_last());
    }
}

/// The windows of `size` consecutive characters of `p`, at most eight of them, when `p` is
/// longer than `size`.
pub open spec fn windows_of(p: Seq<char>, size: int) -> Seq<Seq<char>> {
    if p.len() <= size {
        seq![]
    } else {
        let count = if p.len() - size + 1 <= 8 { p.len() - size + 1 } else { 8 };
        Seq::new(count as nat, |i: int| p.subrange(i, i + size))
    }
}

/// The candidates one query part contributes: the part, its 4-character windows, its
/// 3-character windows.
pub open spec fn part_candidates(p: Seq<char>) -> Seq<Seq<char>> {
    seq![p] + windows_of(p, 4) + windows_of(p, 3)
}

/// `terms` after offering every candidate of `cands` in order.
pub open spec fn offer_all(terms: Seq<Seq<char>>, cands: Seq<Seq<char>>) -> Seq<Seq<char>>
    decreases cands.len(),
{
    if cands.len() == 0 {
        terms
    } else {
        offer_all(with_term(terms, cands[0]), cands.drop_first())
    }
}

/// `terms` after offering the candidates of each part in order.
pub open spec fn offer_parts(terms: Seq<Seq<char>>, parts: Seq<Seq<char>>) -> Seq<Seq<char>>
    decreases parts.len(),
{
    if parts.len() == 0 {
        terms
    } else {
        offer_parts(offer_all(terms, part_candidates(parts[0])), parts.drop_first())
    }
}

/// The search terms of a query: the whole trimmed query, then each part with its short
/// windows, each cleaned, at least two characters long, and without repeats.
pub open spec fn query_terms(query: Seq<char>) -> Seq<Seq<char>> {
    let q = trimmed(query);
    if q.len() == 0 {
        seq![]
    } else {
        offer_parts(with_term(seq![], q), query_parts(q))
    }
}

fn offer_windows(terms: &mut Vec<String>, p: &[char], size: usize)
    requires
        1 <= size <= 4,
    ensures
        string_views(final(terms)@) == offer_all(string_views(old(terms)@), windows_of(p@, size as int)),
{
    let ghost start = string_views(terms@);
    let ghost ws = windows_of(p@, size as int);
    if p.len() <= size {
        assert(ws.len() == 0);
        return;
    }
    let plen = p.len();
    let count = if plen - size + 1 <= 8 { plen - size + 1 } else { 8 };
    let mut i: usize = 0;
    assert(ws.skip(0) =~= ws);
    while i < count
        invariant
            i <= count,
            count == ws.len(),
            count + size - 1 <= plen,
            plen == p@.len(),
            ws == windows_of(p@, size as int),
            offer_all(start, ws) == offer_all(string_views(terms@), ws.skip(i as int)),
        decreases count - i,
    {
        let w = slice_chars(p, i, i + size);
        let wstr = string_of(w.as_slice());
        assert(ws.skip(i as int)[0] == w@);
        assert(ws.skip(i as int).drop_first() =~= ws.skip(i + 1));
        push_unique_term(terms, wstr.as_str());
        i = i + 1;
    }
    assert(ws.skip(count as int) =~= Seq::<Seq<char>>::empty());
}

/// The terms a query is searched by, in the order they are tried.
pub fn search_terms(query: &str) -> (r: Vec<String>)
    ensures
        string_views(r@) == query_terms(query@),
{
    let qc = chars_of(query);
    let q = trim_chars(qc.as_slice());
    let mut terms: Vec<String> = Vec::new();
    if q.len() == 0 {
        assert(string_views(terms@) =~= Seq::<Seq<char>>::empty());
        return terms;
    }
    let qs = string_of(q.as_slice());
    assert(string_views(terms@) =~= Seq::<Seq<char>>::empty());
    push_unique_term(&mut terms, qs.as_str());
    let ghost parts_spec = query_parts(q@);
    let mut parts: Vec<Vec<char>> = Vec::new();
    let mut current: Vec<char> = Vec::new();
    let mut i: usize = 0;
    while i < q.len()
        invariant
            i <= q@.len(),
            parts@.len() + 1 == query_parts(q@.take(i as int)).len(),
            forall|k: int|
                0 <= k < parts@.len() ==> #[trigger] parts@[k]@ == query_parts(q@.take(i as int))[k],
            current@ == query_parts(q@.take(i as int)).last(),
        decreases q@.len() - i,
    {
        let c = q[i];
        assert(q@.take(i + 1).drop_last() =~= q@.take(i as int));
        proof {
            lemma_query_parts_nonempty(q@.take(i as int));
        }
        if is_whitespace(c) || is_query_punctuation(c) {
            let done = current;
            parts.push(done);
            current = Vec::new();
        } else {
            current.push(c);
        }
        i = i + 1;
    }
    assert(q@.take(q@.len() as int) =~= q@);
    parts.push(current);
    let mut k: usize = 0;
    assert(parts_spec.skip(0) =~= parts_spec);
    while k < parts.len()
        invariant
            k <= parts@.len(),
            parts@.len() == parts_spec.len(),
            parts_spec == query_parts(q@),
            forall|j: int| 0 <= j < parts@.len() ==> #[trigger] parts@[j]@ == parts_spec[j],
            query_terms(query@) == offer_parts(string_views(terms@), parts_spec.skip(k as int)),
        decreases parts@.len() - k,
    {
        let p = parts[k].as_slice();
        let ghost before = string_views(terms@);
        let pstr = string_of(p);
        push_unique_term(&mut terms, pstr.as_str());
        let ghost after_part = string_views(terms@);
        offer_windows(&mut terms, p, 4);
        let ghost after4 = string_views(terms@);
        offer_windows(&mut terms, p, 3);
        proof {
            let cands = part_candidates(parts_spec[k as int]);
            lemma_offer_all_concat(before, seq![p@], windows_of(p@, 4));
            lemma_offer_all_concat(before, seq![p@] + windows_of(p@, 4), windows_of(p@, 3));
            assert(offer_all(before, seq![p@]) == after_part) by {
                let one: Seq<Seq<char>> = seq![p@];
                assert(one.drop_first() =~= Seq::<Seq<char>>::empty());
                assert(one[0] == p@);
                assert(offer_all(with_term(before, p@), Seq::<Seq<char>>::empty()) == with_term(
                    before,
                    p@,
                ));
            }
            assert(cands =~= seq![p@] + windows_of(p@, 4) + windows_of(p@, 3));
            assert(parts_spec.skip(k as int)[0] == parts_spec[k as int]);
            assert(parts_spec.skip(k as int).drop_first() =~= parts_spec.skip(k + 1));
        }
        k = k + 1;
    }
    assert(parts_spec.skip(parts@.len() as int) =~= Seq::<Seq<char>>::empty());
    terms
}

/// Offering two lists of candidates one after the other is offering their concatenation.
pub proof fn lemma_offer_all_concat(terms: Seq<Seq<char>>, a: Seq<Seq<char>>, b: Seq<Seq<char>>)
    ensures
        offer_all(terms, a + b) == offer_all(offer_all(terms, a), b),
    decreases a.len(),
{
    if a.len() > 0 {
        assert((a + b).drop_first() =~= a.drop_first() + b);
        assert((a + b)[0] == a[0]);
        lemma_offer_all_concat(with_term(terms, a[0]), a.drop_first(), b);
    } else {
        assert(a + b =~= b);
    }
}

/// Offering candidates never loses a term and never repeats one.
pub proof fn law_offered_terms_unique(terms: Seq<Seq<char>>, cands: Seq<Seq<char>>)
    requires
        forall|i: int, j: int| 0 <= i < j < terms.len() ==> terms[i] != terms[j],
    ensures
        forall|i: int, j: int|
            0 <= i < j < offer_all(terms, cands).len() ==> offer_all(terms, cands)[i] != offer_all(
                terms,
                cands,
            )[j],
        offer_all(terms, cands).len() >= terms.len(),
        forall|i: int| 0 <= i < terms.len() ==> #[trigger] offer_all(terms, cands)[i] == terms[i],
    decreases cands.len(),
{
    if cands.len() > 0 {
        let next = with_term(terms, cands[0]);
        assert forall|i: int, j: int| 0 <= i < j < next.len() implies next[i] != next[j] by {
            if j == terms.len() {
                assert(!has_term(terms, next[j]));
                assert(terms[i] == next[i]);
            }
        }
        law_offered_terms_unique(next, cands.drop_first());
    }
}


/// The first evidence header line among `lines`, with its whitespace normalized.
pub open spec fn evidence_line(lines: Seq<Seq<char>>) -> Option<Seq<char>>
    decreases lines.len(),
{
    if lines.len() == 0 {
        None
    } else if has_prefix(trimmed(lines[0]), "证据范围："@) {
        Some(normalized(trimmed(lines[0])))
    } else {
        evidence_line(lines.drop_first())
    }
}

/// The excerpt shown for a block: its normalized text from the first occurrence of `term`
/// (or from the start), preceded by its evidence header when it has one, cut to 180
/// characters.
pub open spec fn excerpt_of(body: Seq<char>, term: Seq<char>) -> Seq<char> {
    let prefix = evidence_line(split_on(body, '\n'));
    let n = normalized(body);
    let from_term = if term.len() > 0 {
        match find_first(n, term) {
            Some(i) => n.skip(i),
            None => n,
        }
    } else {
        n
    };
    let e = match prefix {
        Some(p) => if has_prefix(from_term, p) {
            from_term
        } else {
            p + " 正文摘录："@ + from_term
        },
        None => from_term,
    };
    truncated(e, 180)
}

/// The excerpt of `body` shown for a hit on `term`.
pub fn build_excerpt(body: &str, term: &str) -> (r: String)
    ensures
        r@ == excerpt_of(body@, term@),
{
    let bc = chars_of(body);
    let lines = split_chars(bc.as_slice(), '\n');
    let marker = chars_of("证据范围：");
    let mut prefix: Option<Vec<char>> = None;
    let mut i: usize = 0;
    let ghost all = split_on(bc@, '\n');
    assert(all.skip(0) =~= all);
    while i < lines.len() && prefix.is_none()
        invariant
            i <= lines@.len(),
            lines@.len() == all.len(),
            all == split_on(bc@, '\n'),
            forall|k: int| 0 <= k < lines@.len() ==> #[trigger] lines@[k]@ == all[k],
            marker@ == "证据范围："@,
            prefix matches Some(p) ==> evidence_line(all) == Some(p@),
            prefix is None ==> evidence_line(all) == evidence_line(all.skip(i as int)),
        decreases lines@.len() - i + (if prefix is None { 1int } else { 0int }),
    {
        let t = trim_chars(lines[i].as_slice());
        assert(all.skip(i as int)[0] == all[i as int]);
        if starts_with_chars(t.as_slice(), marker.as_slice()) {
            prefix = Some(normalize_chars(t.as_slice()));
        } else {
            assert(all.skip(i as int).drop_first() =~= all.skip(i + 1));
            i = i + 1;
        }
    }
    proof {
        if prefix is None {
            assert(all.skip(i as int) =~= Seq::<Seq<char>>::empty());
        }
    }
    assert(prefix matches Some(p) ==> evidence_line(all) == Some(p@));
    assert(prefix is None ==> evidence_line(all) is None);
    let n = normalize_chars(bc.as_slice());
    let tc = chars_of(term);
    let from_term: Vec<char> = if tc.len() > 0 {
        match find_chars(n.as_slice(), tc.as_slice()) {
            Some(idx) => {
                proof {
                    lemma_find_from(n@, tc@, 0);
                }
                let s = slice_chars(n.as_slice(), idx, n.len());
                assert(s@ =~= n@.skip(idx as int));
                s
            },
            None => n,
        }
    } else {
        n
    };
    let excerpt: Vec<char> = match prefix {
        Some(p) => {
            if starts_with_chars(from_term.as_slice(), p.as_slice()) {
                from_term
            } else {
                let mut e = p;
                push_str(&mut e, " 正文摘录：");
                push_chars(&mut e, from_term.as_slice());
                e
            }
        },
        None => from_term,
    };
    let out = truncate_chars_of(excerpt.as_slice(), 180);
    string_of(out.as_slice())
}

/// The source kind shown for a block: `ocr` for blocks located by an OCR fragment, the
/// stored kind otherwise.
pub open spec fn shown_source_kind(source_locator: Seq<char>, stored_kind: Seq<char>) -> Seq<char> {
    if exists|k: int|
        0 <= k < fragments(source_locator).len() && ocr_fragment(
            #[trigger] fragments(source_locator)[k],
        ) {
        "ocr"@
    } else {
        stored_kind
    }
}

/// A search hit built from a stored block found by `term`.
pub fn make_search_hit(
    id: String,
    title: String,
    body: &str,
    source_locator: String,
    source_kind: String,
    term: &str,
) -> (r: KnowledgeBlockSearchHit)
    ensures
        r.id == id,
        r.title == title,
        r.excerpt@ == excerpt_of(body@, term@),
        r.source_file_name@ == source_file_name_of(source_locator@),
        r.source_locator == source_locator,
        r.source_kind@ == shown_source_kind(source_locator@, source_kind@),
{
    let kind = if is_ocr_source_locator(source_locator.as_str()) {
        string_of(chars_of("ocr").as_slice())
    } else {
        source_kind
    };
    KnowledgeBlockSearchHit {
        id,
        title,
        excerpt: build_excerpt(body, term),
        source_file_name: display_source_file_name(source_locator.as_str()),
        source_locator,
        source_kind: kind,
    }
}

/// Whether `hits` holds a hit with the id `id`.
pub open spec fn has_hit_id(hits: Seq<KnowledgeBlockSearchHit>, id: Seq<char>) -> bool {
    exists|k: int| 0 <= k < hits.len() && #[trigger] hits[k].id@ == id
}

/// `current` after appending the hits of `incoming` whose ids it does not hold yet, stopping
/// once it holds `limit` hits.
pub open spec fn appended_unique(
    current: Seq<KnowledgeBlockSearchHit>,
    incoming: Seq<KnowledgeBlockSearchHit>,
    limit: int,
) -> Seq<KnowledgeBlockSearchHit>
    decreases incoming.len(),
{
    if incoming.len() == 0 {
        current
    } else if has_hit_id(current, incoming[0].id@) {
        appended_unique(current, incoming.drop_first(), limit)
    } else {
        let next = current.push(incoming[0]);
        if next.len() >= limit {
            next
        } else {
            appended_unique(next, incoming.drop_first(), limit)
        }
    }
}

fn has_id(hits: &Vec<KnowledgeBlockSearchHit>, id: &str) -> (r: bool)
    ensures
        r == has_hit_id(hits@, id@),
{
    let idc = chars_of(id);
    let mut i: usize = 0;
    while i < hits.len()
        invariant
            i <= hits@.len(),
            idc@ == id@,
            forall|k: int| 0 <= k < i ==> #[trigger] hits@[k].id@ != id@,
        decreases hits@.len() - i,
    {
        if chars_eq(chars_of(hits[i].id.as_str()).as_slice(), idc.as_slice()) {
            return true;
        }
        i = i + 1;
    }
    false
}

/// Appends the hits of `incoming` whose ids `current` does not hold yet, stopping once
/// `current` holds `limit` hits.
pub fn append_unique_hits(
    current: &mut Vec<KnowledgeBlockSearchHit>,
    incoming: Vec<KnowledgeBlockSearchHit>,
    limit: usize,
)
    ensures
        final(current)@ == appended_unique(old(current)@, incoming@, limit as int),
{
    let mut rest = incoming;
    let ghost target = appended_unique(current@, incoming@, limit as int);
    while rest.len() > 0
        invariant
            target == appended_unique(current@, rest@, limit as int),
            target == appended_unique(old(current)@, incoming@, limit as int),
        decreases rest@.len(),
    {
        let ghost before_rest = rest@;
        let hit = rest.remove(0);
        assert(before_rest[0] == hit);
        assert(before_rest.drop_first() =~= rest@);
        let ghost cur_before = current@;
        if has_id(current, hit.id.as_str()) {
            continue;
        }
        assert(!has_hit_id(cur_before, before_rest[0].id@));
        current.push(hit);
        assert(current@ == cur_before.push(before_rest[0]));
        if current.len() >= limit {
            assert(appended_unique(cur_before, before_rest, limit as int) == current@);
            return;
        }
    }
}


/// Words in a (lowercased) query that ask for scanned or image sources.
pub open spec fn ocr_intent(query: Seq<char>) -> bool {
    ||| find_first(query, "ocr"@) is Some
    ||| find_first(query, "扫描"@) is Some
    ||| find_first(query, "扫描版"@) is Some
    ||| find_first(query, "图片"@) is Some
    ||| find_first(query, "截图"@) is Some
    ||| find_first(query, "识别"@) is Some
}

fn contains_chars(v: &[char], token: &str) -> (r: bool)
    ensures
        r == (find_first(v@, token@) is Some),
{
    let t = chars_of(token);
    find_chars(v, t.as_slice()).is_some()
}

/// Whether a lowercased query asks for scanned or image sources.
pub fn query_contains_ocr_intent(query: &str) -> (r: bool)
    ensures
        r == ocr_intent(query@),
{
    let q = chars_of(query);
    let s = q.as_slice();
    contains_chars(s, "ocr") || contains_chars(s, "扫描") || contains_chars(s, "扫描版")
        || contains_chars(s, "图片") || contains_chars(s, "截图") || contains_chars(s, "识别")
}

/// How strongly a hit's kind of source is preferred: table insights always, OCR text when
/// the query asks for it.
pub open spec fn rank_score(hit: KnowledgeBlockSearchHit, wants_ocr: bool) -> int {
    if hit.source_kind@ == "ocr"@ && wants_ocr {
        1
    } else if hit.source_kind@ == "table"@ {
        1
    } else {
        0
    }
}

/// How strongly a hit's kind of source is preferred.
pub fn source_rank_score(hit: &KnowledgeBlockSearchHit, wants_ocr: bool) -> (r: u8)
    ensures
        r as int == rank_score(*hit, wants_ocr),
{
    let kind = chars_of(hit.source_kind.as_str());
    if chars_eq(kind.as_slice(), chars_of("ocr").as_slice()) && wants_ocr {
        1
    } else if chars_eq(kind.as_slice(), chars_of("table").as_slice()) {
        1
    } else {
        0
    }
}

/// A position moved forward by a source's score, not below zero.
pub open spec fn adjusted_position(position: int, score: int) -> int {
    if position >= score {
        position - score
    } else {
        0
    }
}

/// A position moved forward by a source's score, not below zero.
pub fn adjusted_source_position(position: usize, source_score: u8) -> (r: usize)
    ensures
        r as int == adjusted_position(position as int, source_score as int),
{
    position.saturating_sub(source_score as usize)
}

/// The position a hit is ranked from: the last position of a hit with the same id.
pub open spec fn id_position(hits: Seq<KnowledgeBlockSearchHit>, i: int, from: int) -> int
    decreases from,
{
    if from <= 0 {
        i
    } else if hits[from - 1].id@ == hits[i].id@ {
        from - 1
    } else {
        id_position(hits, i, from - 1)
    }
}

/// The ranking key of the hit at `i`: its adjusted position, its score, its position.
pub open spec fn rank_key(hits: Seq<KnowledgeBlockSearchHit>, wants_ocr: bool, i: int) -> (int, int, int) {
    let pos = id_position(hits, i, hits.len() as int);
    let score = rank_score(hits[i], wants_ocr);
    (adjusted_position(pos, score), score, pos)
}

/// Whether the hit at `a` is ranked before the hit at `b`: by adjusted position, then higher
/// score first, then position, then the order they came in.
pub open spec fn ranked_before(hits: Seq<KnowledgeBlockSearchHit>, wants_ocr: bool, a: int, b: int) -> bool {
    let ka = rank_key(hits, wants_ocr, a);
    let kb = rank_key(hits, wants_ocr, b);
    ||| ka.0 < kb.0
    ||| ka.0 == kb.0 && ka.1 > kb.1
    ||| ka.0 == kb.0 && ka.1 == kb.1 && ka.2 < kb.2
    ||| ka.0 == kb.0 && ka.1 == kb.1 && ka.2 == kb.2 && a < b
}

/// Whether `perm` lists each of `0..n` exactly once.
pub open spec fn is_permutation(perm: Seq<int>, n: int) -> bool {
    &&& perm.len() == n
    &&& forall|k: int| 0 <= k < perm.len() ==> 0 <= #[trigger] perm[k] < n
    &&& forall|k: int, l: int| 0 <= k < l < perm.len() ==> perm[k] != perm[l]
}

/// Whether `ranked` is `hits` in ranking order.
pub open spec fn is_ranking(
    hits: Seq<KnowledgeBlockSearchHit>,
    ranked: Seq<KnowledgeBlockSearchHit>,
    wants_ocr: bool,
) -> bool {
    exists|perm: Seq<int>|
        #![trigger is_permutation(perm, hits.len() as int)]
        is_permutation(perm, hits.len() as int) && (forall|k: int|
            0 <= k < perm.len() ==> ranked[k] == hits[#[trigger] perm[k]]) && (forall|k: int, l: int|
            0 <= k < l < perm.len() ==> ranked_before(hits, wants_ocr, #[trigger] perm[k], #[trigger] perm[l]))
            && ranked.len() == hits.len()
}

spec fn keys_match(
    keys: (Vec<usize>, Vec<u8>, Vec<usize>),
    hits: Seq<KnowledgeBlockSearchHit>,
    wants_ocr: bool,
) -> bool {
    &&& keys.0@.len() == hits.len()
    &&& keys.1@.len() == hits.len()
    &&& keys.2@.len() == hits.len()
    &&& forall|i: int|
        0 <= i < hits.len() ==> {
            let k = rank_key(hits, wants_ocr, i);
            &&& #[trigger] keys.0@[i] as int == k.0
            &&& keys.1@[i] as int == k.1
            &&& keys.2@[i] as int == k.2
        }
}

fn rank_keys(hits: &Vec<KnowledgeBlockSearchHit>, wants_ocr: bool) -> (r: (Vec<usize>, Vec<u8>, Vec<usize>))
    ensures
        keys_match(r, hits@, wants_ocr),
{
    let n = hits.len();
    let mut adj: Vec<usize> = Vec::new();
    let mut scores: Vec<u8> = Vec::new();
    let mut positions: Vec<usize> = Vec::new();
    let mut i: usize = 0;
    while i < n
        invariant
            n == hits@.len(),
            i <= n,
            adj@.len() == i,
            scores@.len() == i,
            positions@.len() == i,
            forall|j: int|
                0 <= j < i ==> {
                    let k = rank_key(hits@, wants_ocr, j);
                    &&& #[trigger] adj@[j] as int == k.0
                    &&& scores@[j] as int == k.1
                    &&& positions@[j] as int == k.2
                },
        decreases n - i,
    {
        let id = chars_of(hits[i].id.as_str());
        let mut from = n;
        while from > 0
            invariant
                from <= n,
                n == hits@.len(),
                i < n,
                id@ == hits@[i as int].id@,
                id_position(hits@, i as int, n as int) == id_position(hits@, i as int, from as int),
            ensures
                from <= n,
                id_position(hits@, i as int, n as int) == id_position(hits@, i as int, from as int),
                from == 0 || hits@[from - 1].id@ == id@,
            decreases from,
        {
            if chars_eq(chars_of(hits[from - 1].id.as_str()).as_slice(), id.as_slice()) {
                break ;
            }
            from = from - 1;
        }
        let pos = if from == 0 {
            i
        } else {
            from - 1
        };
        assert(pos as int == id_position(hits@, i as int, n as int));
        let score = source_rank_score(&hits[i], wants_ocr);
        let ghost old_adj = adj@;
        let ghost old_scores = scores@;
        let ghost old_positions = positions@;
        adj.push(adjusted_source_position(pos, score));
        scores.push(score);
        positions.push(pos);
        assert forall|j: int| 0 <= j < i + 1 implies {
            let k = rank_key(hits@, wants_ocr, j);
            &&& #[trigger] adj@[j] as int == k.0
            &&& scores@[j] as int == k.1
            &&& positions@[j] as int == k.2
        } by {
            if j < i {
                assert(adj@[j] == old_adj[j]);
                assert(scores@[j] == old_scores[j]);
                assert(positions@[j] == old_positions[j]);
            }
        }
        i = i + 1;
    }
    (adj, scores, positions)
}

fn before_exec(
    keys: &(Vec<usize>, Vec<u8>, Vec<usize>),
    a: usize,
    b: usize,
) -> (r: bool)
    requires
        a < keys.0@.len(),
        b < keys.0@.len(),
        keys.1@.len() == keys.0@.len(),
        keys.2@.len() == keys.0@.len(),
    ensures
        r == {
            ||| keys.0@[a as int] < keys.0@[b as int]
            ||| keys.0@[a as int] == keys.0@[b as int] && keys.1@[a as int] > keys.1@[b as int]
            ||| keys.0@[a as int] == keys.0@[b as int] && keys.1@[a as int] == keys.1@[b as int]
                && keys.2@[a as int] < keys.2@[b as int]
            ||| keys.0@[a as int] == keys.0@[b as int] && keys.1@[a as int] == keys.1@[b as int]
                && keys.2@[a as int] == keys.2@[b as int] && a < b
        },
{
    let (ka0, ka1, ka2) = (keys.0[a], keys.1[a], keys.2[a]);
    let (kb0, kb1, kb2) = (keys.0[b], keys.1[b], keys.2[b]);
    ka0 < kb0 || (ka0 == kb0 && ka1 > kb1) || (ka0 == kb0 && ka1 == kb1 && ka2 < kb2) || (ka0
        == kb0 && ka1 == kb1 && ka2 == kb2 && a < b)
}

/// Orders hits so that table insights (and OCR text for scan-related queries) move one place
/// ahead of the hit just before them, keeping every other order.
pub fn rank_search_hits(hits: &mut Vec<KnowledgeBlockSearchHit>, query: &str)
    ensures
        is_ranking(old(hits)@, final(hits)@, ocr_intent(unicode_lowercase(query@))),
{
    let lowered = to_lowercase(query);
    let wants_ocr = query_contains_ocr_intent(lowered.as_str());
    let ghost w = ocr_intent(unicode_lowercase(query@));
    let ghost orig = hits@;
    let n = hits.len();
    let keys = rank_keys(hits, wants_ocr);
    assert(keys_match(keys, orig, w));
    let mut rest: Vec<KnowledgeBlockSearchHit> = Vec::new();
    rest.append(hits);
    let mut rest_idx: Vec<usize> = Vec::new();
    let mut j: usize = 0;
    while j < n
        invariant
            j <= n,
            rest_idx@.len() == j,
            forall|k: int| 0 <= k < j ==> #[trigger] rest_idx@[k] == k,
        decreases n - j,
    {
        rest_idx.push(j);
        j = j + 1;
    }
    let mut out: Vec<KnowledgeBlockSearchHit> = Vec::new();
    let ghost mut perm: Seq<int> = seq![];
    while rest.len() > 0
        invariant
            n == orig.len(),
            wants_ocr == w,
            keys_match(keys, orig, w),
            rest@.len() == rest_idx@.len(),
            out@.len() == perm.len(),
            perm.len() + rest_idx@.len() == n,
            forall|k: int| 0 <= k < rest_idx@.len() ==> (#[trigger] rest_idx@[k] as int) < n,
            forall|k: int| 0 <= k < rest_idx@.len() ==> #[trigger] rest@[k] == orig[rest_idx@[k] as int],
            forall|k: int| 0 <= k < perm.len() ==> 0 <= #[trigger] perm[k] < n,
            forall|k: int| 0 <= k < perm.len() ==> #[trigger] out@[k] == orig[perm[k]],
            forall|k: int, l: int| 0 <= k < l < perm.len() ==> perm[k] != perm[l],
            forall|k: int, l: int| 0 <= k < l < rest_idx@.len() ==> rest_idx@[k] != rest_idx@[l],
            forall|k: int, l: int|
                0 <= k < perm.len() && 0 <= l < rest_idx@.len() ==> perm[k] != rest_idx@[l] as int,
            forall|k: int, l: int|
                0 <= k < l < perm.len() ==> ranked_before(orig, w, #[trigger] perm[k], #[trigger] perm[l]),
            forall|k: int, l: int|
                0 <= k < perm.len() && 0 <= l < rest_idx@.len() ==> ranked_before(
                    orig,
                    w,
                    #[trigger] perm[k],
                    #[trigger] rest_idx@[l] as int,
                ),
        decreases rest@.len(),
    {
        let mut best: usize = 0;
        let mut m: usize = 1;
        while m < rest_idx.len()
            invariant
                1 <= m <= rest_idx@.len(),
                best < rest_idx@.len(),
                keys.0@.len() == n,
                keys.1@.len() == n,
                keys.2@.len() == n,
                forall|k: int| 0 <= k < rest_idx@.len() ==> (#[trigger] rest_idx@[k] as int) < n,
                forall|k: int|
                    0 <= k < m && k != best ==> !before_key(
                        keys,
                        #[trigger] rest_idx@[k] as int,
                        rest_idx@[best as int] as int,
                    ),
            decreases rest_idx@.len() - m,
        {
            if before_exec(&keys, rest_idx[m], rest_idx[best]) {
                best = m;
            }
            m = m + 1;
        }
        let ghost chosen = rest_idx@[best as int] as int;
        let ghost old_rest_idx = rest_idx@;
        let ghost old_rest = rest@;
        let ghost old_perm = perm;
        proof {
            assert forall|l: int| 0 <= l < old_rest_idx.len() && l != best implies ranked_before(
                orig,
                w,
                chosen,
                #[trigger] old_rest_idx[l] as int,
            ) by {
                let a = chosen;
                let b = old_rest_idx[l] as int;
                assert(!before_key(keys, b, a));
                assert(a != b);
            }
        }
        let idx = rest_idx.remove(best);
        let hit = rest.remove(best);
        out.push(hit);
        proof {
            perm = perm.push(chosen);
            assert forall|k: int, l: int|
                0 <= k < perm.len() && 0 <= l < rest_idx@.len() implies ranked_before(
                orig,
                w,
                #[trigger] perm[k],
                #[trigger] rest_idx@[l] as int,
            ) by {
                let ol = if l < best { l } else { l + 1 };
                assert(rest_idx@[l] == old_rest_idx[ol]);
                if k < old_perm.len() {
                    assert(perm[k] == old_perm[k]);
                }
            }
            assert forall|k: int| 0 <= k < rest_idx@.len() implies #[trigger] rest@[k] == orig[rest_idx@[k] as int] by {
                let ol = if k < best { k } else { k + 1 };
                assert(rest_idx@[k] == old_rest_idx[ol]);
                assert(rest@[k] == old_rest[ol]);
            }
            assert forall|k: int, l: int| 0 <= k < l < rest_idx@.len() implies rest_idx@[k] != rest_idx@[l] by {
                let ok = if k < best { k } else { k + 1 };
                let ol = if l < best { l } else { l + 1 };
                assert(rest_idx@[k] == old_rest_idx[ok]);
                assert(rest_idx@[l] == old_rest_idx[ol]);
            }
            assert forall|k: int, l: int|
                0 <= k < perm.len() && 0 <= l < rest_idx@.len() implies perm[k] != rest_idx@[l] as int by {
                let ol = if l < best { l } else { l + 1 };
                assert(rest_idx@[l] == old_rest_idx[ol]);
            }
            assert forall|k: int, l: int| 0 <= k < l < perm.len() implies perm[k] != perm[l] by {
                if l == old_perm.len() {
                    assert(old_rest_idx[best as int] as int == chosen);
                }
            }
            assert forall|k: int| 0 <= k < perm.len() implies #[trigger] out@[k] == orig[perm[k]] by {
                if k == old_perm.len() {
                    assert(out@[k] == old_rest[best as int]);
                }
            }
            assert forall|k: int| 0 <= k < rest_idx@.len() implies (#[trigger] rest_idx@[k] as int) < n by {
                let ol = if k < best { k } else { k + 1 };
                assert(rest_idx@[k] == old_rest_idx[ol]);
            }
        }
    }
    assert(is_permutation(perm, orig.len() as int));
    *hits = out;
}

/// The ordering on key vectors.
spec fn before_key(keys: (Vec<usize>, Vec<u8>, Vec<usize>), a: int, b: int) -> bool {
    ||| keys.0@[a] < keys.0@[b]
    ||| keys.0@[a] == keys.0@[b] && keys.1@[a] > keys.1@[b]
    ||| keys.0@[a] == keys.0@[b] && keys.1@[a] == keys.1@[b] && keys.2@[a] < keys.2@[b]
    ||| keys.0@[a] == keys.0@[b] && keys.1@[a] == keys.1@[b] && keys.2@[a] == keys.2@[b] && a < b
}


/// Whether no two hits share an id.
pub open spec fn unique_ids(hits: Seq<KnowledgeBlockSearchHit>) -> bool {
    forall|i: int, j: int| 0 <= i < j < hits.len() ==> hits[i].id@ != hits[j].id@
}

proof fn lemma_id_position_unique(hits: Seq<KnowledgeBlockSearchHit>, i: int, from: int)
    requires
        unique_ids(hits),
        0 <= i < hits.len(),
        i < from <= hits.len(),
    ensures
        id_position(hits, i, from) == i,
    decreases from,
{
    if from - 1 != i {
        assert(hits[from - 1].id@ != hits[i].id@);
        lemma_id_position_unique(hits, i, from - 1);
    }
}

/// Among hits with distinct ids, two plain hits keep their order.
pub proof fn law_ranking_keeps_plain_order(
    hits: Seq<KnowledgeBlockSearchHit>,
    wants_ocr: bool,
    a: int,
    b: int,
)
    requires
        unique_ids(hits),
        0 <= a < b < hits.len(),
        rank_score(hits[a], wants_ocr) == 0,
        rank_score(hits[b], wants_ocr) == 0,
    ensures
        ranked_before(hits, wants_ocr, a, b),
{
    lemma_id_position_unique(hits, a, hits.len() as int);
    lemma_id_position_unique(hits, b, hits.len() as int);
}

/// Among hits with distinct ids, a preferred source overtakes a plain hit only when it comes
/// right after it: structured sources are promoted by one place, never further.
pub proof fn law_ranking_promotes_by_one_place(
    hits: Seq<KnowledgeBlockSearchHit>,
    wants_ocr: bool,
    plain: int,
    preferred: int,
)
    requires
        unique_ids(hits),
        0 <= plain < preferred < hits.len(),
        rank_score(hits[plain], wants_ocr) == 0,
        rank_score(hits[preferred], wants_ocr) == 1,
    ensures
        ranked_before(hits, wants_ocr, preferred, plain) <==> preferred == plain + 1,
{
    lemma_id_position_unique(hits, plain, hits.len() as int);
    lemma_id_position_unique(hits, preferred, hits.len() as int);
}

/// Ranking keeps every hit: each input hit appears in the output exactly as often.
pub proof fn law_ranking_is_a_permutation(
    hits: Seq<KnowledgeBlockSearchHit>,
    ranked: Seq<KnowledgeBlockSearchHit>,
    wants_ocr: bool,
    i: int,
)
    requires
        is_ranking(hits, ranked, wants_ocr),
        0 <= i < hits.len(),
    ensures
        ranked.len() == hits.len(),
        exists|k: int| 0 <= k < ranked.len() && ranked[k] == hits[i],
{
    let perm = choose|perm: Seq<int>|
        #![trigger is_permutation(perm, hits.len() as int)]
        is_permutation(perm, hits.len() as int) && (forall|k: int|
            0 <= k < perm.len() ==> ranked[k] == hits[#[trigger] perm[k]]) && (forall|k: int, l: int|
            0 <= k < l < perm.len() ==> ranked_before(hits, wants_ocr, #[trigger] perm[k], #[trigger] perm[l]))
            && ranked.len() == hits.len();
    lemma_permutation_covers(perm, hits.len() as int, i);
    let k = choose|k: int| 0 <= k < perm.len() && perm[k] == i;
    assert(ranked[k] == hits[perm[k]]);
}

/// A permutation of `0..n` lists every number below `n`.
pub proof fn lemma_permutation_covers(perm: Seq<int>, n: int, i: int)
    requires
        is_permutation(perm, n),
        0 <= i < n,
    ensures
        exists|k: int| 0 <= k < perm.len() && perm[k] == i,
{
    if !(exists|k: int| 0 <= k < perm.len() && perm[k] == i) {
        let missing = Set::new(|x: int| 0 <= x < n && x != i);
        let image = Set::new(|x: int| exists|k: int| 0 <= k < perm.len() && perm[k] == x);
        lemma_distinct_image_size(perm);
        assert(image.subset_of(missing));
        vstd::set_lib::lemma_int_range(0, n);
        let range = vstd::set_lib::set_int_range(0, n);
        assert(missing =~= range.remove(i));
        vstd::set_lib::lemma_len_subset(image, missing);
    }
}

proof fn lemma_distinct_image_size(perm: Seq<int>)
    requires
        forall|k: int, l: int| 0 <= k < l < perm.len() ==> perm[k] != perm[l],
    ensures
        Set::new(|x: int| exists|k: int| 0 <= k < perm.len() && perm[k] == x).finite(),
        Set::new(|x: int| exists|k: int| 0 <= k < perm.len() && perm[k] == x).len() == perm.len(),
    decreases perm.len(),
{
    let image = Set::new(|x: int| exists|k: int| 0 <= k < perm.len() && perm[k] == x);
    if perm.len() == 0 {
        assert(image =~= Set::<int>::empty());
    } else {
        let q = perm.drop_last();
        assert forall|k: int, l: int| 0 <= k < l < q.len() implies q[k] != q[l] by {
            assert(q[k] == perm[k] && q[l] == perm[l]);
        }
        lemma_distinct_image_size(q);
        let qi = Set::new(|x: int| exists|k: int| 0 <= k < q.len() && q[k] == x);
        assert(image =~= qi.insert(perm.last())) by {
            assert forall|x: int| image.contains(x) implies qi.insert(perm.last()).contains(x) by {
                let k = choose|k: int| 0 <= k < perm.len() && perm[k] == x;
                if k < q.len() {
                    assert(q[k] == x);
                }
            }
            assert forall|x: int| qi.insert(perm.last()).contains(x) implies image.contains(x) by {
                if x != perm.last() {
                    let k = choose|k: int| 0 <= k < q.len() && q[k] == x;
                    assert(perm[k] == x);
                } else {
                    assert(perm[perm.len() - 1] == x);
                }
            }
        }
        assert(!qi.contains(perm.last())) by {
            if qi.contains(perm.last()) {
                let k = choose|k: int| 0 <= k < q.len() && q[k] == perm.last();
                assert(perm[k] == perm[perm.len() - 1]);
            }
        }
    }
}


/// The number of candidate hits collected before ranking: three times the limit, saturating.
pub open spec fn candidate_limit(limit: int) -> int {
    if limit * 3 <= usize::MAX {
        limit * 3
    } else {
        usize::MAX as int
    }
}

/// Hits after appending the lists of `lists` in order, each without repeated ids, stopping
/// after the list that brings the count to `cap`.
pub open spec fn collect_lists(
    current: Seq<KnowledgeBlockSearchHit>,
    lists: Seq<Seq<KnowledgeBlockSearchHit>>,
    cap: int,
) -> Seq<KnowledgeBlockSearchHit>
    decreases lists.len(),
{
    if lists.len() == 0 {
        current
    } else {
        let next = appended_unique(current, lists[0], cap);
        if next.len() >= cap {
            next
        } else {
            collect_lists(next, lists.drop_first(), cap)
        }
    }
}

/// The hits collected for a query before ranking: full-text matches per term, then, when
/// those are fewer than the candidate limit, substring matches per term.
pub open spec fn collected_hits(
    full_text: Seq<Seq<KnowledgeBlockSearchHit>>,
    substring: Seq<Seq<KnowledgeBlockSearchHit>>,
    limit: int,
) -> Seq<KnowledgeBlockSearchHit> {
    let cap = candidate_limit(limit);
    let first = collect_lists(seq![], full_text, cap);
    if first.len() < cap {
        collect_lists(first, substring, cap)
    } else {
        first
    }
}

/// The contents of each list of hits.
pub open spec fn hit_lists(lists: Seq<Vec<KnowledgeBlockSearchHit>>) -> Seq<Seq<KnowledgeBlockSearchHit>> {
    lists.map_values(|l: Vec<KnowledgeBlockSearchHit>| l@)
}

fn collect_into(
    hits: &mut Vec<KnowledgeBlockSearchHit>,
    lists: Vec<Vec<KnowledgeBlockSearchHit>>,
    cap: usize,
)
    ensures
        final(hits)@ == collect_lists(old(hits)@, hit_lists(lists@), cap as int),
{
    let ghost all = hit_lists(lists@);
    let mut rest = lists;
    let ghost target = collect_lists(hits@, all, cap as int);
    while rest.len() > 0
        invariant
            target == collect_lists(hits@, hit_lists(rest@), cap as int),
            target == collect_lists(old(hits)@, all, cap as int),
            all == hit_lists(lists@),
        decreases rest@.len(),
    {
        let ghost before = hit_lists(rest@);
        let ghost start = hits@;
        let list = rest.remove(0);
        assert(before[0] == list@);
        assert(before.drop_first() =~= hit_lists(rest@));
        append_unique_hits(hits, list, cap);
        assert(collect_lists(start, before, cap as int) == if hits@.len() >= cap {
            hits@
        } else {
            collect_lists(hits@, before.drop_first(), cap as int)
        });
        if hits.len() >= cap {
            return;
        }
    }
}

/// The hits of a search: the collected candidates, ranked, and cut to `limit`.
/// `full_text[t]` and `substring[t]` are the blocks the store found for the `t`-th term of
/// `search_terms(query)`, each built with `make_search_hit`.
pub fn merge_search_hits(
    full_text: Vec<Vec<KnowledgeBlockSearchHit>>,
    substring: Vec<Vec<KnowledgeBlockSearchHit>>,
    query: &str,
    limit: usize,
) -> (r: Vec<KnowledgeBlockSearchHit>)
    ensures
        query_terms(query@).len() == 0 || limit == 0 ==> r@.len() == 0,
        query_terms(query@).len() > 0 && limit > 0 ==> {
            let collected = collected_hits(
                hit_lists(full_text@),
                hit_lists(substring@),
                limit as int,
            );
            exists|ranked: Seq<KnowledgeBlockSearchHit>|
                is_ranking(collected, ranked, ocr_intent(unicode_lowercase(query@)))
                    && r@ == first_hits(ranked, limit as int)
        },
{
    let terms = search_terms(query);
    if terms.len() == 0 || limit == 0 {
        return Vec::new();
    }
    let cap: usize = if limit <= usize::MAX / 3 { limit * 3 } else { usize::MAX };
    let mut hits: Vec<KnowledgeBlockSearchHit> = Vec::new();
    collect_into(&mut hits, full_text, cap);
    if hits.len() < cap {
        collect_into(&mut hits, substring, cap);
    }
    let ghost collected = hits@;
    rank_search_hits(&mut hits, query);
    let ghost ranked = hits@;
    hits.truncate(limit);
    assert(hits@ == first_hits(ranked, limit as int));
    hits
}

/// The first `limit` hits of `hits`.
pub open spec fn first_hits(hits: Seq<KnowledgeBlockSearchHit>, limit: int) -> Seq<KnowledgeBlockSearchHit> {
    if hits.len() <= limit {
        hits
    } else {
        hits.take(limit)
    }
}


/// The position of the first hit with id `id` from position `i` on.
pub open spec fn position_from(hits: Seq<KnowledgeBlockSearchHit>, id: Seq<char>, i: int) -> Option<int>
    decreases hits.len() - i,
{
    if i < 0 || i >= hits.len() {
        None
    } else if hits[i].id@ == id {
        Some(i)
    } else {
        position_from(hits, id, i + 1)
    }
}

/// The blocks of one file around the selected block `block_id`: all of them, with the
/// selected one's place (counting from one) and their number; none when the block is not
/// among them.
pub fn block_context(blocks: Vec<KnowledgeBlockSearchHit>, block_id: &str) -> (r: Option<KnowledgeBlockContext>)
    requires
        blocks@.len() <= u32::MAX,
    ensures
        position_from(blocks@, block_id@, 0) is None ==> r is None,
        position_from(blocks@, block_id@, 0) matches Some(p) ==> (r matches Some(c) && c.current_index == p + 1
            && c.total_count == blocks@.len() && c.blocks == blocks),
{
    let wanted = chars_of(block_id);
    let mut i: usize = 0;
    while i < blocks.len()
        invariant
            i <= blocks@.len(),
            blocks@.len() <= u32::MAX,
            wanted@ == block_id@,
            position_from(blocks@, block_id@, 0) == position_from(blocks@, block_id@, i as int),
        decreases blocks.len() - i,
    {
        if chars_eq(chars_of(blocks[i].id.as_str()).as_slice(), wanted.as_slice()) {
            let total = blocks.len() as u32;
            return Some(KnowledgeBlockContext { current_index: (i + 1) as u32, total_count: total, blocks });
        }
        i = i + 1;
    }
    None
}


/// Appending hits by id keeps the ids distinct.
proof fn lemma_appended_unique_ids(current: Seq<KnowledgeBlockSearchHit>, incoming: Seq<KnowledgeBlockSearchHit>, limit: int)
    requires
        unique_ids(current),
    ensures
        unique_ids(appended_unique(current, incoming, limit)),
    decreases incoming.len(),
{
    if incoming.len() > 0 {
        if has_hit_id(current, incoming[0].id@) {
            lemma_appended_unique_ids(current, incoming.drop_first(), limit);
        } else {
            let next = current.push(incoming[0]);
            assert forall|i: int, j: int| 0 <= i < j < next.len() implies next[i].id@ != next[j].id@ by {
                if j == next.len() - 1 {
                    assert(next[i] == current[i]);
                    if current[i].id@ == incoming[0].id@ {
                        assert(has_hit_id(current, incoming[0].id@));
                    }
                } else {
                    assert(next[i] == current[i] && next[j] == current[j]);
                }
            }
            if next.len() < limit {
                lemma_appended_unique_ids(next, incoming.drop_first(), limit);
            }
        }
    }
}

/// Collecting lists of hits by id keeps the ids distinct.
proof fn lemma_collected_unique_ids(current: Seq<KnowledgeBlockSearchHit>, lists: Seq<Seq<KnowledgeBlockSearchHit>>, cap: int)
    requires
        unique_ids(current),
    ensures
        unique_ids(collect_lists(current, lists, cap)),
    decreases lists.len(),
{
    if lists.len() > 0 {
        lemma_appended_unique_ids(current, lists[0], cap);
        let next = appended_unique(current, lists[0], cap);
        if next.len() < cap {
            lemma_collected_unique_ids(next, lists.drop_first(), cap);
        }
    }
}

/// A search never shows the same block twice, and never more hits than asked for: whatever
/// lists of matches the store found, the ranked and cut result has distinct ids.
pub proof fn law_search_never_repeats_a_block(
    full_text: Seq<Seq<KnowledgeBlockSearchHit>>,
    substring: Seq<Seq<KnowledgeBlockSearchHit>>,
    limit: int,
    ranked: Seq<KnowledgeBlockSearchHit>,
    wants_ocr: bool,
)
    requires
        0 <= limit,
        is_ranking(collected_hits(full_text, substring, limit), ranked, wants_ocr),
    ensures
        unique_ids(first_hits(ranked, limit)),
        first_hits(ranked, limit).len() <= limit,
{
    let cap = candidate_limit(limit);
    let empty = Seq::<KnowledgeBlockSearchHit>::empty();
    lemma_collected_unique_ids(empty, full_text, cap);
    let first = collect_lists(empty, full_text, cap);
    if first.len() < cap {
        lemma_collected_unique_ids(first, substring, cap);
    }
    let hits = collected_hits(full_text, substring, limit);
    let perm = choose|perm: Seq<int>|
        #![trigger is_permutation(perm, hits.len() as int)]
        is_permutation(perm, hits.len() as int) && (forall|k: int|
            0 <= k < perm.len() ==> ranked[k] == hits[#[trigger] perm[k]]) && (forall|k: int, l: int|
            0 <= k < l < perm.len() ==> ranked_before(hits, wants_ocr, #[trigger] perm[k], #[trigger] perm[l]))
            && ranked.len() == hits.len();
    assert forall|i: int, j: int| 0 <= i < j < ranked.len() implies ranked[i].id@ != ranked[j].id@ by {
        assert(ranked[i] == hits[perm[i]]);
        assert(ranked[j] == hits[perm[j]]);
        assert(perm[i] != perm[j]);
        if perm[i] < perm[j] {
            assert(hits[perm[i]].id@ != hits[perm[j]].id@);
        } else {
            assert(hits[perm[j]].id@ != hits[perm[i]].id@);
        }
    }
    let shown = first_hits(ranked, limit);
    assert forall|i: int, j: int| 0 <= i < j < shown.len() implies shown[i].id@ != shown[j].id@ by {
        assert(shown[i] == ranked[i] && shown[j] == ranked[j]);
    }
}

/// An excerpt never repeats a block's evidence header: when the text shown (the normalized
/// body from the first occurrence of the term, or from its start when the term is empty or
/// absent) already begins with the header, the excerpt is that text itself, cut to 180
/// characters, with nothing put before it.
pub proof fn law_excerpt_does_not_repeat_the_header(body: Seq<char>, term: Seq<char>, header: Seq<char>)
    requires
        evidence_line(split_on(body, '\n')) == Some(header),
    ensures
        (term.len() == 0 || find_first(normalized(body), term) is None) && has_prefix(normalized(body), header)
            ==> excerpt_of(body, term) == truncated(normalized(body), 180),
        forall|i: int|
            term.len() > 0 && find_first(normalized(body), term) == Some(i) && has_prefix(
                #[trigger] normalized(body).skip(i),
                header,
            ) ==> excerpt_of(body, term) == truncated(normalized(body).skip(i), 180),
{
}

} // verus!
