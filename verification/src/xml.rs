//! The small XML reader used on Office documents: text without tags, entity unescaping,
//! element blocks, attributes and start tags.
use vstd::prelude::*;

use crate::text::char_views;
use crate::text::chars_eq;
use crate::text::chars_of;
use crate::text::find_chars;
use crate::text::find_chars_from;
use crate::text::find_first;
use crate::text::find_from;
use crate::text::is_whitespace;
use crate::text::is_ws;
use crate::text::last_index_of;
use crate::text::last_index_of_char;
use crate::text::lemma_find_from;
use crate::text::lemma_last_index_of;
use crate::text::normalize_chars;
use crate::text::normalized;
use crate::text::occurs_at;
use crate::text::push_chars;
use crate::text::push_str;
use crate::text::replace_all;
use crate::text::replace_chars;
use crate::text::slice_chars;
use crate::text::string_of;
use crate::text::string_views;
use crate::text::trim_start;

verus! {

/// The characters of `s` outside tags, each `<` and `>` read as a space, and whether the scan
/// ends inside a tag.
pub open spec fn strip_scan(s: Seq<char>) -> (Seq<char>, bool)
    decreases s.len(),
{
    if s.len() == 0 {
        (seq![], false)
    } else {
        let (out, in_tag) = strip_scan(s.drop_last());
        let c = s.last();
        if c == '<' {
            (out.push(' '), true)
        } else if c == '>' {
            (out.push(' '), false)
        } else if !in_tag {
            (out.push(c), false)
        } else {
            (out, true)
        }
    }
}

/// The text of `s` outside tags, each `<` and `>` read as a space.
pub open spec fn strip_tags(s: Seq<char>) -> Seq<char> {
    strip_scan(s).0
}

/// `s` with the five XML entities replaced, `&lt;`, `&gt;`, `&amp;`, `&quot;` and `&apos;` in
/// that order.
pub open spec fn unescaped(s: Seq<char>) -> Seq<char> {
    replace_all(
        replace_all(
            replace_all(replace_all(replace_all(s, "&lt;"@, "<"@), "&gt;"@, ">"@), "&amp;"@, "&"@),
            "&quot;"@,
            "\""@,
        ),
        "&apos;"@,
        "'"@,
    )
}

/// `s` with the five XML entities replaced, `&quot;`, `&apos;`, `&lt;`, `&gt;` and `&amp;` in
/// that order (as done for relationship attributes).
pub open spec fn unescaped_attribute(s: Seq<char>) -> Seq<char> {
    replace_all(
        replace_all(
            replace_all(
                replace_all(replace_all(s, "&quot;"@, "\""@), "&apos;"@, "'"@),
                "&lt;"@,
                "<"@,
            ),
            "&gt;"@,
            ">"@,
        ),
        "&amp;"@,
        "&"@,
    )
}

/// The text of an XML fragment: tags removed, entities unescaped, whitespace normalised.
pub open spec fn xml_text(xml: Seq<char>) -> Seq<char> {
    normalized(unescaped(strip_tags(xml)))
}

/// Replaces the literal `from` by `to` in `v`.
fn replace_text(v: &[char], from: &str, to: &str) -> (r: Vec<char>)
    requires
        from@.len() > 0,
    ensures
        r@ == replace_all(v@, from@, to@),
{
    let f = chars_of(from);
    let t = chars_of(to);
    replace_chars(v, f.as_slice(), t.as_slice())
}

/// `unescaped` on a character vector.
pub fn unescape_xml_chars(v: &[char]) -> (r: Vec<char>)
    ensures
        r@ == unescaped(v@),
{
    proof {
        reveal_strlit("&lt;");
        reveal_strlit("&gt;");
        reveal_strlit("&amp;");
        reveal_strlit("&quot;");
        reveal_strlit("&apos;");
    }
    let a = replace_text(v, "&lt;", "<");
    let b = replace_text(a.as_slice(), "&gt;", ">");
    let c = replace_text(b.as_slice(), "&amp;", "&");
    let d = replace_text(c.as_slice(), "&quot;", "\"");
    replace_text(d.as_slice(), "&apos;", "'")
}

/// `unescaped_attribute` on a character vector.
pub fn unescape_attribute_chars(v: &[char]) -> (r: Vec<char>)
    ensures
        r@ == unescaped_attribute(v@),
{
    proof {
        reveal_strlit("&lt;");
        reveal_strlit("&gt;");
        reveal_strlit("&amp;");
        reveal_strlit("&quot;");
        reveal_strlit("&apos;");
    }
    let a = replace_text(v, "&quot;", "\"");
    let b = replace_text(a.as_slice(), "&apos;", "'");
    let c = replace_text(b.as_slice(), "&lt;", "<");
    let d = replace_text(c.as_slice(), "&gt;", ">");
    replace_text(d.as_slice(), "&amp;", "&")
}

/// Replaces the five XML entities in `value`.
pub fn unescape_xml(value: &str) -> (r: String)
    ensures
        r@ == unescaped(value@),
{
    let v = chars_of(value);
    string_of(unescape_xml_chars(v.as_slice()).as_slice())
}

/// `strip_tags` on a character vector.
fn strip_tag_chars(v: &[char]) -> (r: Vec<char>)
    ensures
        r@ == strip_tags(v@),
{
    let mut out: Vec<char> = Vec::new();
    let mut in_tag = false;
    let mut i: usize = 0;
    assert(v@.take(0) =~= Seq::<char>::empty());
    while i < v.len()
        invariant
            i <= v.len(),
            (out@, in_tag) == strip_scan(v@.take(i as int)),
        decreases v.len() - i,
    {
        let c = v[i];
        assert(v@.take(i + 1).drop_last() =~= v@.take(i as int));
        assert(v@.take(i + 1).last() == c);
        if c == '<' {
            out.push(' ');
            in_tag = true;
        } else if c == '>' {
            out.push(' ');
            in_tag = false;
        } else if !in_tag {
            out.push(c);
        }
        i = i + 1;
    }
    assert(v@.take(v.len() as int) =~= v@);
    out
}

/// `xml_text` on a character vector.
pub fn xml_text_chars(v: &[char]) -> (r: Vec<char>)
    ensures
        r@ == xml_text(v@),
{
    let stripped = strip_tag_chars(v);
    let plain = unescape_xml_chars(stripped.as_slice());
    normalize_chars(plain.as_slice())
}

/// The text of an XML fragment: tags removed (each `<` and `>` read as a space), entities
/// unescaped, whitespace runs collapsed to single spaces and trimmed.
pub fn xml_to_text(xml: &str) -> (r: String)
    ensures
        r@ == xml_text(xml@),
{
    let v = chars_of(xml);
    string_of(xml_text_chars(v.as_slice()).as_slice())
}

/// The opening marker of an element: `<` and the tag name.
pub open spec fn open_marker(tag: Seq<char>) -> Seq<char> {
    seq!['<'] + tag
}

/// The closing marker of an element: `</`, the tag name and `>`.
pub open spec fn close_marker(tag: Seq<char>) -> Seq<char> {
    seq!['<', '/'] + tag + seq!['>']
}

/// The element blocks of `s` from position `from` on: from an opening marker through the
/// next closing marker, one after the other; the search stops at the first opening marker
/// without a closing marker after it.
pub open spec fn blocks_from(s: Seq<char>, open: Seq<char>, close: Seq<char>, from: int) -> Seq<Seq<char>>
    decreases s.len() - from,
{
    if from < 0 || from > s.len() {
        seq![]
    } else {
        match find_from(s, open, from) {
            None => seq![],
            Some(start) => match find_from(s, close, start) {
                None => seq![],
                Some(end) => {
                    let block_end = end + close.len();
                    if block_end <= from || block_end > s.len() {
                        seq![]
                    } else {
                        seq![s.subrange(start, block_end)] + blocks_from(s, open, close, block_end)
                    }
                },
            },
        }
    }
}

/// The `tag` element blocks of `xml`, in order.
pub open spec fn xml_blocks(xml: Seq<char>, tag: Seq<char>) -> Seq<Seq<char>> {
    blocks_from(xml, open_marker(tag), close_marker(tag), 0)
}

/// The markers of a tag.
fn markers(tag: &str) -> (r: (Vec<char>, Vec<char>))
    ensures
        r.0@ == open_marker(tag@),
        r.1@ == close_marker(tag@),
{
    let t = chars_of(tag);
    let mut open: Vec<char> = Vec::new();
    open.push('<');
    push_chars(&mut open, t.as_slice());
    let mut close: Vec<char> = Vec::new();
    close.push('<');
    close.push('/');
    push_chars(&mut close, t.as_slice());
    close.push('>');
    assert(open@ =~= open_marker(tag@));
    assert(close@ =~= close_marker(tag@));
    (open, close)
}

/// The `tag` element blocks of `v`, each as characters.
pub fn xml_block_chars(v: &[char], tag: &str) -> (r: Vec<Vec<char>>)
    ensures
        r@.len() == xml_blocks(v@, tag@).len(),
        forall|k: int| 0 <= k < r@.len() ==> #[trigger] r@[k]@ == xml_blocks(v@, tag@)[k],
{
    let (open, close) = markers(tag);
    let ghost all = xml_blocks(v@, tag@);
    let mut out: Vec<Vec<char>> = Vec::new();
    let mut pos: usize = 0;
    loop
        invariant
            pos <= v.len(),
            open@ == open_marker(tag@),
            close@ == close_marker(tag@),
            all == xml_blocks(v@, tag@),
            all == char_views(out@) + blocks_from(v@, open@, close@, pos as int),
        ensures
            all == char_views(out@),
        decreases v.len() - pos,
    {
        let ghost rest = blocks_from(v@, open@, close@, pos as int);
        match find_chars_from(v, open.as_slice(), pos) {
            None => {
                assert(rest =~= Seq::<Seq<char>>::empty());
                assert(char_views(out@) + rest =~= char_views(out@));
                break ;
            },
            Some(start) => {
                proof {
                    lemma_find_from(v@, open@, pos as int);
                }
                match find_chars_from(v, close.as_slice(), start) {
                    None => {
                        assert(rest =~= Seq::<Seq<char>>::empty());
                        assert(char_views(out@) + rest =~= char_views(out@));
                        break ;
                    },
                    Some(end) => {
                        proof {
                            lemma_find_from(v@, close@, start as int);
                        }
                        let block_end = end + close.len();
                        let block = slice_chars(v, start, block_end);
                        let ghost before = out@;
                        out.push(block);
                        assert(char_views(out@) =~= char_views(before).push(block@));
                        assert(rest =~= seq![block@] + blocks_from(v@, open@, close@, block_end as int));
                        pos = block_end;
                    },
                }
            },
        }
    }
    assert(char_views(out@).len() == out@.len());
    assert forall|k: int| 0 <= k < out@.len() implies #[trigger] out@[k]@ == xml_blocks(v@, tag@)[k] by {
        assert(char_views(out@)[k] == out@[k]@);
    }
    out
}

/// The marker an attribute's value follows: the attribute name, `=` and `"`.
pub open spec fn attribute_marker(attribute: Seq<char>) -> Seq<char> {
    attribute + seq!['=', '"']
}

/// The raw value of the first `attribute="…"` in `xml`: what lies between the marker and
/// the next `"`.
pub open spec fn raw_attribute(xml: Seq<char>, attribute: Seq<char>) -> Option<Seq<char>> {
    match find_first(xml, attribute_marker(attribute)) {
        None => None,
        Some(at) => {
            let start = at + attribute_marker(attribute).len();
            match find_from(xml, seq!['"'], start) {
                None => None,
                Some(end) => Some(xml.subrange(start, end)),
            }
        },
    }
}

/// The raw value of the first `attribute="…"` in `v`.
fn raw_attribute_chars(v: &[char], attribute: &str) -> (r: Option<Vec<char>>)
    ensures
        r matches Some(x) ==> raw_attribute(v@, attribute@) == Some(x@),
        r is None ==> raw_attribute(v@, attribute@) is None,
{
    let mut marker = chars_of(attribute);
    marker.push('=');
    marker.push('"');
    assert(marker@ =~= attribute_marker(attribute@));
    let vlen = v.len();
    match find_chars(v, marker.as_slice()) {
        None => None,
        Some(at) => {
            proof {
                lemma_find_from(v@, marker@, 0);
                assert(find_from(v@, marker@, 0) == Some(at as int));
                assert(occurs_at(v@, marker@, at as int));
            }
            let start = at + marker.len();
            let quote: Vec<char> = vec!['"'];
            assert(quote@ =~= seq!['"']);
            match find_chars_from(v, quote.as_slice(), start) {
                None => None,
                Some(end) => {
                    proof {
                        lemma_find_from(v@, quote@, start as int);
                    }
                    Some(slice_chars(v, start, end))
                },
            }
        },
    }
}

/// The value of the first `attribute="…"` in `xml`, with entities replaced.
pub open spec fn attribute_value(xml: Seq<char>, attribute: Seq<char>) -> Option<Seq<char>> {
    match raw_attribute(xml, attribute) {
        Some(raw) => Some(unescaped(raw)),
        None => None,
    }
}

/// The value of the first `attribute="…"` in a tag, with entities replaced in the order used
/// for relationship attributes.
pub open spec fn tag_attribute_value(tag: Seq<char>, attribute: Seq<char>) -> Option<Seq<char>> {
    match raw_attribute(tag, attribute) {
        Some(raw) => Some(unescaped_attribute(raw)),
        None => None,
    }
}

/// The value of the first `attribute="…"` in `xml`, unescaped.
pub fn xml_attribute(xml: &str, attribute: &str) -> (r: Option<String>)
    ensures
        r matches Some(x) ==> attribute_value(xml@, attribute@) == Some(x@),
        r is None ==> attribute_value(xml@, attribute@) is None,
{
    let v = chars_of(xml);
    match raw_attribute_chars(v.as_slice(), attribute) {
        None => None,
        Some(raw) => Some(string_of(unescape_xml_chars(raw.as_slice()).as_slice())),
    }
}

/// The value of the first `attribute="…"` in a tag, unescaped in the order used for
/// relationship attributes.
pub fn tag_attribute(tag: &str, attribute: &str) -> (r: Option<String>)
    ensures
        r matches Some(x) ==> tag_attribute_value(tag@, attribute@) == Some(x@),
        r is None ==> tag_attribute_value(tag@, attribute@) is None,
{
    let v = chars_of(tag);
    match raw_attribute_chars(v.as_slice(), attribute) {
        None => None,
        Some(raw) => Some(string_of(unescape_attribute_chars(raw.as_slice()).as_slice())),
    }
}

/// The text of the first `tag` element of `xml`: from after the `>` that ends its opening
/// tag up to the next closing marker, as `xml_text`.
pub open spec fn first_tag_text(xml: Seq<char>, tag: Seq<char>) -> Option<Seq<char>> {
    match find_first(xml, open_marker(tag)) {
        None => None,
        Some(start) => match find_from(xml, seq!['>'], start) {
            None => None,
            Some(gt) => match find_from(xml, close_marker(tag), gt + 1) {
                None => None,
                Some(end) => Some(xml_text(xml.subrange(gt + 1, end))),
            },
        },
    }
}

/// The text of the first `tag` element of `xml`.
pub fn first_xml_tag_text(xml: &str, tag: &str) -> (r: Option<String>)
    ensures
        r matches Some(x) ==> first_tag_text(xml@, tag@) == Some(x@),
        r is None ==> first_tag_text(xml@, tag@) is None,
{
    let v = chars_of(xml);
    let (open, close) = markers(tag);
    match find_chars(v.as_slice(), open.as_slice()) {
        None => None,
        Some(start) => {
            proof {
                lemma_find_from(v@, open@, 0);
            }
            let vlen = v.len();
            let gt_marker: Vec<char> = vec!['>'];
            assert(gt_marker@ =~= seq!['>']);
            match find_chars_from(v.as_slice(), gt_marker.as_slice(), start) {
                None => None,
                Some(gt) => {
                    proof {
                        lemma_find_from(v@, gt_marker@, start as int);
                        assert(occurs_at(v@, gt_marker@, gt as int));
                    }
                    match find_chars_from(v.as_slice(), close.as_slice(), gt + 1) {
                        None => None,
                        Some(end) => {
                            proof {
                                lemma_find_from(v@, close@, gt + 1);
                            }
                            let content = slice_chars(v.as_slice(), gt + 1, end);
                            Some(string_of(xml_text_chars(content.as_slice()).as_slice()))
                        },
                    }
                },
            }
        },
    }
}

/// `s` without its leading `c` characters.
pub open spec fn trim_start_char(s: Seq<char>, c: char) -> Seq<char>
    decreases s.len(),
{
    if s.len() > 0 && s[0] == c {
        trim_start_char(s.drop_first(), c)
    } else {
        s
    }
}

/// Whether a character ends a tag name.
pub open spec fn ends_name(c: char) -> bool {
    is_ws(c) || c == '>' || c == '/'
}

/// The length of the tag name at the start of `s`.
pub open spec fn name_length(s: Seq<char>) -> nat
    decreases s.len(),
{
    if s.len() == 0 || ends_name(s[0]) {
        0
    } else {
        1 + name_length(s.drop_first())
    }
}

/// The local name of a tag: none for closing tags, declarations and comments; else its name
/// after the last `:` (so without its namespace prefix).
pub open spec fn local_name(tag: Seq<char>) -> Option<Seq<char>> {
    let t = trim_start(trim_start_char(tag, '<'));
    if t.len() > 0 && (t[0] == '/' || t[0] == '?' || t[0] == '!') {
        None
    } else {
        let name = t.take(name_length(t) as int);
        match last_index_of(name, ':') {
            Some(i) => Some(name.skip(i + 1)),
            None => Some(name),
        }
    }
}

/// The name length never exceeds the text.
pub proof fn lemma_name_length(s: Seq<char>)
    ensures
        name_length(s) <= s.len(),
    decreases s.len(),
{
    if s.len() > 0 && !ends_name(s[0]) {
        lemma_name_length(s.drop_first());
    }
}

/// The local name of a tag.
pub fn xml_tag_local_name(tag: &[char]) -> (r: Option<Vec<char>>)
    ensures
        r matches Some(n) ==> local_name(tag@) == Some(n@),
        r is None ==> local_name(tag@) is None,
{
    let mut i: usize = 0;
    assert(tag@.skip(0) =~= tag@);
    while i < tag.len() && tag[i] == '<'
        invariant
            i <= tag.len(),
            trim_start_char(tag@, '<') == trim_start_char(tag@.skip(i as int), '<'),
        decreases tag.len() - i,
    {
        assert(tag@.skip(i as int).drop_first() =~= tag@.skip(i + 1));
        i = i + 1;
    }
    assert(trim_start_char(tag@.skip(i as int), '<') == tag@.skip(i as int));
    let mut j: usize = i;
    while j < tag.len() && is_whitespace(tag[j])
        invariant
            i <= j <= tag.len(),
            trim_start(trim_start_char(tag@, '<')) == trim_start(tag@.skip(j as int)),
        decreases tag.len() - j,
    {
        assert(tag@.skip(j as int).drop_first() =~= tag@.skip(j + 1));
        j = j + 1;
    }
    let ghost t = tag@.skip(j as int);
    assert(trim_start(t) == t);
    if j < tag.len() && (tag[j] == '/' || tag[j] == '?' || tag[j] == '!') {
        return None;
    }
    let mut k: usize = j;
    assert(t.skip(0) =~= t);
    while k < tag.len() && !(is_whitespace(tag[k]) || tag[k] == '>' || tag[k] == '/')
        invariant
            j <= k <= tag.len(),
            t == tag@.skip(j as int),
            name_length(t) == (k - j) + name_length(tag@.skip(k as int)),
        decreases tag.len() - k,
    {
        assert(tag@.skip(k as int).drop_first() =~= tag@.skip(k + 1));
        k = k + 1;
    }
    let name = slice_chars(tag, j, k);
    assert(name@ =~= t.take(name_length(t) as int));
    match last_index_of_char(name.as_slice(), ':') {
        Some(c) => {
            proof {
                lemma_last_index_of(name@, ':');
            }
            Some(slice_chars(name.as_slice(), c + 1, name.len()))
        },
        None => Some(name),
    }
}

/// The start tags of `s` from position `from` on with local name `name`: each `<` through
/// the next `>`, the scan going on after that `>`.
pub open spec fn start_tags_from(s: Seq<char>, name: Seq<char>, from: int) -> Seq<Seq<char>>
    decreases s.len() - from,
{
    if from < 0 || from > s.len() {
        seq![]
    } else {
        match find_from(s, seq!['<'], from) {
            None => seq![],
            Some(start) => match find_from(s, seq!['>'], start) {
                None => seq![],
                Some(end) => {
                    if end + 1 <= from || end + 1 > s.len() {
                        seq![]
                    } else {
                        let tag = s.subrange(start, end + 1);
                        let rest = start_tags_from(s, name, end + 1);
                        if local_name(tag) == Some(name) {
                            seq![tag] + rest
                        } else {
                            rest
                        }
                    }
                },
            },
        }
    }
}

/// The start tags of `xml` whose local name is `name`, in order.
pub fn xml_start_tags(xml: &str, name: &str) -> (r: Vec<String>)
    ensures
        string_views(r@) == start_tags_from(xml@, name@, 0),
{
    let v = chars_of(xml);
    let wanted = chars_of(name);
    let lt: Vec<char> = vec!['<'];
    let gt: Vec<char> = vec!['>'];
    assert(lt@ =~= seq!['<']);
    assert(gt@ =~= seq!['>']);
    let ghost all = start_tags_from(xml@, name@, 0);
    let mut out: Vec<String> = Vec::new();
    let mut pos: usize = 0;
    loop
        invariant
            pos <= v.len(),
            v@ == xml@,
            wanted@ == name@,
            lt@ == seq!['<'],
            gt@ == seq!['>'],
            all == start_tags_from(xml@, name@, 0),
            all == string_views(out@) + start_tags_from(xml@, name@, pos as int),
        ensures
            all == string_views(out@),
        decreases v.len() - pos,
    {
        let ghost rest = start_tags_from(xml@, name@, pos as int);
        match find_chars_from(v.as_slice(), lt.as_slice(), pos) {
            None => {
                assert(string_views(out@) + rest =~= string_views(out@));
                break ;
            },
            Some(start) => {
                proof {
                    lemma_find_from(v@, lt@, pos as int);
                }
                match find_chars_from(v.as_slice(), gt.as_slice(), start) {
                    None => {
                        assert(string_views(out@) + rest =~= string_views(out@));
                        break ;
                    },
                    Some(end) => {
                        proof {
                            lemma_find_from(v@, gt@, start as int);
                        }
                        let tag = slice_chars(v.as_slice(), start, end + 1);
                        let local = xml_tag_local_name(tag.as_slice());
                        let keep = match &local {
                            Some(n) => chars_eq(n.as_slice(), wanted.as_slice()),
                            None => false,
                        };
                        let ghost before = out@;
                        if keep {
                            out.push(string_of(tag.as_slice()));
                            assert(string_views(out@) =~= string_views(before).push(tag@));
                            assert(rest =~= seq![tag@] + start_tags_from(xml@, name@, end + 1));
                        } else {
                            assert(rest =~= start_tags_from(xml@, name@, end + 1));
                        }
                        pos = end + 1;
                    },
                }
            },
        }
    }
    out
}

} // verus!
