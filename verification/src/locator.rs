//! Source locators: a relative path followed by `#fragment` parts that point at a page, an
//! OCR page, an embedded image, a worksheet or a chunk of a document.
use vstd::prelude::*;

use crate::text::chars_eq;
use crate::text::lemma_trim_idempotent;
use crate::text::chars_of;
use crate::text::decimal;
use crate::text::decimal_chars;
use crate::text::display_file_name;
use crate::text::ends_with_chars;
use crate::text::file_name_chars;
use crate::text::file_name_of;
use crate::text::has_prefix;
use crate::text::has_suffix;
use crate::text::last_index_of;
use crate::text::last_index_of_char;
use crate::text::lemma_last_index_of;
use crate::text::lemma_split_nonempty;
use crate::text::lemma_trim_len;
use crate::text::padded_decimal_chars;
use crate::text::parse_digits_u32;
use crate::text::parsed_u32;
use crate::text::push_chars;
use crate::text::push_str;
use crate::text::slice_chars;
use crate::text::split_chars;
use crate::text::split_on;
use crate::text::starts_with_chars;
use crate::text::string_of;
use crate::text::to_lowercase;
use crate::text::trim_chars;
use crate::text::trimmed;
use crate::text::unicode_lowercase;
use crate::text::zero_padded;

verus! {

/// The `#`-separated fragments after the path part of a locator.
pub open spec fn fragments(s: Seq<char>) -> Seq<Seq<char>> {
    split_on(s, '#').drop_first()
}

/// The number after `prefix` in `fragment`, when the rest of the fragment is a `u32`.
pub open spec fn numbered_value(fragment: Seq<char>, prefix: Seq<char>) -> Option<u32> {
    if has_prefix(fragment, prefix) {
        parsed_u32(fragment.skip(prefix.len() as int))
    } else {
        None
    }
}

/// Whether `fragment` is `prefix` followed by a number.
pub open spec fn is_numbered(fragment: Seq<char>, prefix: Seq<char>) -> bool {
    numbered_value(fragment, prefix) is Some
}

/// Fragments the library itself appends to a path.
pub open spec fn known_fragment(f: Seq<char>) -> bool {
    ||| f == "ocr"@
    ||| is_numbered(f, "page-"@)
    ||| is_numbered(f, "ocr-page-"@)
    ||| is_numbered(f, "image-"@)
    ||| is_numbered(f, "block-"@)
    ||| is_numbered(f, "ocr-block-"@)
    ||| is_numbered(f, "sheet-"@)
}

/// Fragments that mark OCR output.
pub open spec fn ocr_fragment(f: Seq<char>) -> bool {
    f == "ocr"@ || is_numbered(f, "ocr-block-"@) || is_numbered(f, "ocr-page-"@)
}

/// Fragments that mark a page or an image.
pub open spec fn page_fragment(f: Seq<char>) -> bool {
    is_numbered(f, "page-"@) || is_numbered(f, "ocr-page-"@) || is_numbered(f, "image-"@)
}

/// The number of the first `image-N` fragment among `frags`.
pub open spec fn first_image_number(frags: Seq<Seq<char>>) -> Option<u32>
    decreases frags.len(),
{
    if frags.len() == 0 {
        None
    } else if numbered_value(frags[0], "image-"@) is Some {
        numbered_value(frags[0], "image-"@)
    } else {
        first_image_number(frags.drop_first())
    }
}

/// The embedded-image number a locator points at (`…#image-N`).
pub open spec fn image_number_of(locator: Seq<char>) -> Option<u32> {
    first_image_number(fragments(locator))
}

/// `s` with trailing known fragments removed, trimming after each removal.
pub open spec fn strip_fragments(s: Seq<char>) -> Seq<char>
    decreases s.len(),
{
    match last_index_of(s, '#') {
        Some(i) => {
            if 0 <= i < s.len() && known_fragment(s.skip(i + 1)) {
                proof {
                    lemma_trim_len(s.take(i));
                }
                strip_fragments(trimmed(s.take(i)))
            } else {
                s
            }
        },
        None => s,
    }
}

/// The path part of a locator: trimmed, with trailing known fragments removed.
pub open spec fn source_path_of(locator: Seq<char>) -> Seq<char> {
    strip_fragments(trimmed(locator))
}

/// The number after `prefix` in `fragment`.
pub fn numbered_value_chars(fragment: &[char], prefix: &[char]) -> (r: Option<u32>)
    ensures
        r == numbered_value(fragment@, prefix@),
{
    if !starts_with_chars(fragment, prefix) {
        return None;
    }
    let rest = slice_chars(fragment, prefix.len(), fragment.len());
    assert(rest@ =~= fragment@.skip(prefix@.len() as int));
    parse_digits_u32(rest.as_slice())
}

/// The number after `prefix` in `fragment`, if the rest of the fragment is a `u32`.
pub fn numbered_fragment_value(fragment: &str, prefix: &str) -> (r: Option<u32>)
    ensures
        r == numbered_value(fragment@, prefix@),
{
    let f = chars_of(fragment);
    let p = chars_of(prefix);
    numbered_value_chars(f.as_slice(), p.as_slice())
}

/// Whether `fragment` is `prefix` followed by a number.
pub fn numbered_fragment(fragment: &str, prefix: &str) -> (r: bool)
    ensures
        r == is_numbered(fragment@, prefix@),
{
    numbered_fragment_value(fragment, prefix).is_some()
}

fn is_numbered_chars(f: &[char], prefix: &str) -> (r: bool)
    ensures
        r == is_numbered(f@, prefix@),
{
    let p = chars_of(prefix);
    numbered_value_chars(f, p.as_slice()).is_some()
}

fn known_fragment_chars(f: &[char]) -> (r: bool)
    ensures
        r == known_fragment(f@),
{
    chars_eq(f, chars_of("ocr").as_slice()) || is_numbered_chars(f, "page-") || is_numbered_chars(
        f,
        "ocr-page-",
    ) || is_numbered_chars(f, "image-") || is_numbered_chars(f, "block-") || is_numbered_chars(
        f,
        "ocr-block-",
    ) || is_numbered_chars(f, "sheet-")
}

/// Whether `fragment` is one the library appends to paths.
pub fn is_known_source_fragment(fragment: &str) -> (r: bool)
    ensures
        r == known_fragment(fragment@),
{
    let f = chars_of(fragment);
    known_fragment_chars(f.as_slice())
}

/// The path part of a locator, as characters.
pub fn source_path_chars(v: &[char]) -> (r: Vec<char>)
    ensures
        r@ == source_path_of(v@),
{
    let mut cur = trim_chars(v);
    loop
        invariant
            source_path_of(v@) == strip_fragments(cur@),
        decreases cur@.len(),
    {
        match last_index_of_char(cur.as_slice(), '#') {
            Some(i) => {
                proof {
                    lemma_last_index_of(cur@, '#');
                }
                let n = cur.len();
                assert(i < n);
                let frag = slice_chars(cur.as_slice(), i + 1, n);
                assert(frag@ =~= cur@.skip(i + 1));
                if known_fragment_chars(frag.as_slice()) {
                    let head = slice_chars(cur.as_slice(), 0, i);
                    assert(head@ =~= cur@.take(i as int));
                    proof {
                        lemma_trim_len(head@);
                    }
                    cur = trim_chars(head.as_slice());
                } else {
                    return cur;
                }
            },
            None => {
                return cur;
            },
        }
    }
}

/// The path part of a locator: trailing known fragments removed.
pub fn strip_known_source_fragment(source_locator: &str) -> (r: String)
    ensures
        r@ == source_path_of(source_locator@),
{
    let v = chars_of(source_locator);
    let p = source_path_chars(v.as_slice());
    string_of(p.as_slice())
}

/// The fragments of a locator, as character vectors.
fn fragment_list(v: &[char]) -> (r: Vec<Vec<char>>)
    ensures
        r@.len() == fragments(v@).len(),
        forall|k: int| 0 <= k < r@.len() ==> #[trigger] r@[k]@ == fragments(v@)[k],
{
    let pieces = split_chars(v, '#');
    proof {
        lemma_split_nonempty(v@, '#');
    }
    let mut out: Vec<Vec<char>> = Vec::new();
    let mut i: usize = 1;
    while i < pieces.len()
        invariant
            1 <= i <= pieces@.len(),
            pieces@.len() == split_on(v@, '#').len(),
            forall|k: int| 0 <= k < pieces@.len() ==> #[trigger] pieces@[k]@ == split_on(v@, '#')[k],
            out@.len() == i - 1,
            forall|k: int| 0 <= k < out@.len() ==> #[trigger] out@[k]@ == fragments(v@)[k],
        decreases pieces@.len() - i,
    {
        let piece = slice_chars(pieces[i].as_slice(), 0, pieces[i].len());
        assert(piece@ =~= pieces@[i as int]@);
        out.push(piece);
        i = i + 1;
    }
    out
}

/// The embedded-image number of a locator, from its first `image-N` fragment.
pub fn image_number_chars(v: &[char]) -> (r: Option<u32>)
    ensures
        r == image_number_of(v@),
{
    let frags = fragment_list(v);
    let prefix = chars_of("image-");
    let mut i: usize = 0;
    assert(fragments(v@).skip(0) =~= fragments(v@));
    while i < frags.len()
        invariant
            i <= frags@.len(),
            frags@.len() == fragments(v@).len(),
            forall|k: int| 0 <= k < frags@.len() ==> #[trigger] frags@[k]@ == fragments(v@)[k],
            prefix@ == "image-"@,
            image_number_of(v@) == first_image_number(fragments(v@).skip(i as int)),
        decreases frags@.len() - i,
    {
        let value = numbered_value_chars(frags[i].as_slice(), prefix.as_slice());
        assert(fragments(v@).skip(i as int)[0] == fragments(v@)[i as int]);
        if value.is_some() {
            return value;
        }
        assert(fragments(v@).skip(i as int).drop_first() =~= fragments(v@).skip(i + 1));
        i = i + 1;
    }
    None
}

/// The embedded-image number a locator points at (`…#image-N`).
pub fn embedded_image_number_from_locator(source_locator: &str) -> (r: Option<u32>)
    ensures
        r == image_number_of(source_locator@),
{
    let v = chars_of(source_locator);
    image_number_chars(v.as_slice())
}

/// Whether any fragment of a locator marks OCR output.
pub fn is_ocr_source_locator(source_locator: &str) -> (r: bool)
    ensures
        r == exists|k: int|
            0 <= k < fragments(source_locator@).len() && ocr_fragment(
                #[trigger] fragments(source_locator@)[k],
            ),
{
    let v = chars_of(source_locator);
    let frags = fragment_list(v.as_slice());
    let mut i: usize = 0;
    while i < frags.len()
        invariant
            i <= frags@.len(),
            frags@.len() == fragments(v@).len(),
            v@ == source_locator@,
            forall|k: int| 0 <= k < frags@.len() ==> #[trigger] frags@[k]@ == fragments(v@)[k],
            forall|k: int| 0 <= k < i ==> !ocr_fragment(#[trigger] fragments(v@)[k]),
        decreases frags@.len() - i,
    {
        let f = frags[i].as_slice();
        if chars_eq(f, chars_of("ocr").as_slice()) || is_numbered_chars(f, "ocr-block-")
            || is_numbered_chars(f, "ocr-page-") {
            assert(ocr_fragment(fragments(v@)[i as int]));
            return true;
        }
        i = i + 1;
    }
    false
}

/// Whether any fragment of a locator marks a page or an image.
pub fn source_locator_has_page_fragment(source_locator: &str) -> (r: bool)
    ensures
        r == exists|k: int|
            0 <= k < fragments(source_locator@).len() && page_fragment(
                #[trigger] fragments(source_locator@)[k],
            ),
{
    let v = chars_of(source_locator);
    let frags = fragment_list(v.as_slice());
    let mut i: usize = 0;
    while i < frags.len()
        invariant
            i <= frags@.len(),
            frags@.len() == fragments(v@).len(),
            v@ == source_locator@,
            forall|k: int| 0 <= k < frags@.len() ==> #[trigger] frags@[k]@ == fragments(v@)[k],
            forall|k: int| 0 <= k < i ==> !page_fragment(#[trigger] fragments(v@)[k]),
        decreases frags@.len() - i,
    {
        let f = frags[i].as_slice();
        if is_numbered_chars(f, "page-") || is_numbered_chars(f, "ocr-page-") || is_numbered_chars(
            f,
            "image-",
        ) {
            assert(page_fragment(fragments(v@)[i as int]));
            return true;
        }
        i = i + 1;
    }
    false
}

/// The file name shown for a locator: the last component of its path part.
pub open spec fn source_file_name_of(locator: Seq<char>) -> Seq<char> {
    file_name_of(source_path_of(locator))
}

/// The file name shown for a cited source, without fragments.
pub fn display_source_file_name(source_locator: &str) -> (r: String)
    ensures
        r@ == source_file_name_of(source_locator@),
{
    let v = chars_of(source_locator);
    let p = source_path_chars(v.as_slice());
    let n = file_name_chars(p.as_slice());
    string_of(n.as_slice())
}

/// The name shown for a parse job: the file name, or for an embedded image the document's
/// name followed by ` · 文档图片 N`.
pub open spec fn parse_job_file_name(relative_path: Seq<char>, source_locator: Option<Seq<char>>) -> Seq<char> {
    match source_locator {
        Some(l) => match image_number_of(l) {
            Some(n) => source_file_name_of(l) + " · 文档图片 "@ + decimal(n as nat),
            None => file_name_of(relative_path),
        },
        None => file_name_of(relative_path),
    }
}

/// The name shown for a parse job in the job list.
pub fn display_parse_job_file_name(relative_path: &str, source_locator: Option<&str>) -> (r: String)
    ensures
        r@ == parse_job_file_name(relative_path@, match source_locator {
            Some(l) => Some(l@),
            None => None,
        }),
{
    if let Some(locator) = source_locator {
        let v = chars_of(locator);
        if let Some(n) = image_number_chars(v.as_slice()) {
            let p = source_path_chars(v.as_slice());
            let mut out = file_name_chars(p.as_slice());
            push_str(&mut out, " · 文档图片 ");
            let digits = decimal_chars(n as u64);
            push_chars(&mut out, digits.as_slice());
            return string_of(out.as_slice());
        }
    }
    display_file_name(relative_path)
}

/// The locator of the `block_number`-th chunk of a source.
pub open spec fn block_locator(source_locator: Seq<char>, block_number: nat) -> Seq<char> {
    let t = trimmed(source_locator);
    let n = zero_padded(decimal(block_number), 3);
    if has_suffix(t, "#ocr"@) {
        strip_fragments(t) + "#ocr-block-"@ + n
    } else if exists|k: int| 0 <= k < fragments(t).len() && page_fragment(#[trigger] fragments(t)[k]) {
        t + "#block-"@ + n
    } else {
        strip_fragments(t) + "#block-"@ + n
    }
}

/// The locator of the `block_number`-th chunk of a source: OCR chunks become
/// `#ocr-block-NNN`, chunks of a page keep the page fragment, other chunks replace the known
/// fragments with `#block-NNN`.
pub fn append_source_block_locator(source_locator: &str, block_number: usize) -> (r: String)
    ensures
        r@ == block_locator(source_locator@, block_number as nat),
{
    let v = chars_of(source_locator);
    let t = trim_chars(v.as_slice());
    let tstr = string_of(t.as_slice());
    let n = padded_decimal_chars(block_number as u64, 3);
    let mut out: Vec<char>;
    if ends_with_chars(t.as_slice(), chars_of("#ocr").as_slice()) {
        out = source_path_chars(t.as_slice());
        proof {
            lemma_trim_idempotent(v@);
        }
        push_str(&mut out, "#ocr-block-");
    } else if source_locator_has_page_fragment(tstr.as_str()) {
        out = t;
        push_str(&mut out, "#block-");
    } else {
        out = source_path_chars(t.as_slice());
        proof {
            lemma_trim_idempotent(v@);
        }
        push_str(&mut out, "#block-");
    }
    push_chars(&mut out, n.as_slice());
    string_of(out.as_slice())
}

/// The extension as shown in the file list: always with a leading dot.
pub fn display_extension(extension: String) -> (r: String)
    ensures
        r@ == if has_prefix(extension@, seq!['.']) { extension@ } else { seq!['.'] + extension@ },
{
    let v = chars_of(extension.as_str());
    let mut dot: Vec<char> = Vec::new();
    dot.push('.');
    if starts_with_chars(v.as_slice(), dot.as_slice()) {
        extension
    } else {
        push_chars(&mut dot, v.as_slice());
        string_of(dot.as_slice())
    }
}

/// The key two relative paths are matched by: `/` read as `\`, then lowercased.
pub open spec fn lookup_key(relative_path: Seq<char>) -> Seq<char> {
    unicode_lowercase(relative_path.map_values(|c: char| if c == '/' { '\\' } else { c }))
}

/// The key two relative paths are matched by.
pub fn normalize_lookup_key(relative_path: &str) -> (r: String)
    ensures
        r@ == lookup_key(relative_path@),
{
    let v = chars_of(relative_path);
    let mut out: Vec<char> = Vec::new();
    let mut i: usize = 0;
    while i < v.len()
        invariant
            i <= v.len(),
            out@ == v@.take(i as int).map_values(|c: char| if c == '/' { '\\' } else { c }),
        decreases v.len() - i,
    {
        let c = v[i];
        out.push(if c == '/' { '\\' } else { c });
        i = i + 1;
        assert(out@ =~= v@.take(i as int).map_values(|c: char| if c == '/' { '\\' } else { c }));
    }
    assert(v@.take(v.len() as int) =~= v@);
    let s = string_of(out.as_slice());
    to_lowercase(s.as_str())
}

/// An optional locator, trimmed, and absent when blank.
pub fn normalize_optional_source_locator(value: Option<&str>) -> (r: Option<String>)
    ensures
        r matches Some(s) ==> value matches Some(v) && s@ == trimmed(v@) && s@.len() > 0,
        r is None ==> value is None || trimmed(value->0@).len() == 0,
{
    match value {
        Some(v) => {
            let chars = chars_of(v);
            let t = trim_chars(chars.as_slice());
            if t.len() == 0 {
                None
            } else {
                Some(string_of(t.as_slice()))
            }
        },
        None => None,
    }
}

} // verus!
