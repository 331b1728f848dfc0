//! Text from lightweight PDF files: the literal strings of the content streams, or else the
//! runs of readable characters.
use vstd::prelude::*;

use crate::text::is_whitespace;
use crate::text::is_ws;
use crate::text::join_chars;
use crate::text::join_with;
use crate::text::char_views;
use crate::text::normalize_chars;
use crate::text::normalized;
use crate::text::trim_chars;
use crate::text::trimmed;

verus! {

/// `char::is_alphanumeric`: the Unicode `Alphabetic` or `Numeric` property.
pub uninterp spec fn unicode_alphanumeric(c: char) -> bool;

/// Calls `char::is_alphanumeric`, true for characters with the Unicode `Alphabetic` or
/// `Numeric` property; the tables behind it are named `unicode_alphanumeric`.
#[verifier::external_body]
fn is_alphanumeric(c: char) -> (r: bool)
    ensures
        r == unicode_alphanumeric(c),
{
    c.is_alphanumeric()
}

/// The state of the literal-string scan: the strings found, the string being read, whether
/// the scan is inside a string, and whether the next character is escaped.
pub open spec fn literal_scan(s: Seq<char>) -> (Seq<Seq<char>>, Seq<char>, bool, bool)
    decreases s.len(),
{
    if s.len() == 0 {
        (seq![], seq![], false, false)
    } else {
        let (values, current, in_string, escaped) = literal_scan(s.drop_last());
        let c = s.last();
        if in_string {
            if escaped {
                (values, current.push(c), true, false)
            } else if c == '\\' {
                (values, current, true, true)
            } else if c == ')' {
                (
                    if trimmed(current).len() >= 2 {
                        values.push(trimmed(current))
                    } else {
                        values
                    },
                    seq![],
                    false,
                    false,
                )
            } else {
                (values, current.push(c), true, false)
            }
        } else if c == '(' {
            (values, current, true, escaped)
        } else {
            (values, current, in_string, escaped)
        }
    }
}

/// The literal strings `(…)` of a PDF's text with at least two characters after trimming,
/// one per line; a backslash keeps the next character as it is.
pub open spec fn pdf_literal_text(s: Seq<char>) -> Seq<char> {
    join_with(literal_scan(s).0, "\n"@)
}

/// The literal strings of a PDF's text, one per line.
pub fn extract_pdf_literal_strings(content: &[char]) -> (r: Vec<char>)
    ensures
        r@ == pdf_literal_text(content@),
{
    let mut values: Vec<Vec<char>> = Vec::new();
    let mut current: Vec<char> = Vec::new();
    let mut in_string = false;
    let mut escaped = false;
    let mut i: usize = 0;
    assert(content@.take(0) =~= Seq::<char>::empty());
    while i < content.len()
        invariant
            i <= content.len(),
            (char_views(values@), current@, in_string, escaped) == literal_scan(content@.take(i as int)),
        decreases content.len() - i,
    {
        let c = content[i];
        assert(content@.take(i + 1).drop_last() =~= content@.take(i as int));
        assert(content@.take(i + 1).last() == c);
        if in_string {
            if escaped {
                current.push(c);
                escaped = false;
            } else if c == '\\' {
                escaped = true;
            } else if c == ')' {
                let t = trim_chars(current.as_slice());
                if t.len() >= 2 {
                    let ghost before = values@;
                    values.push(t);
                    assert(char_views(values@) =~= char_views(before).push(trimmed(current@)));
                }
                current = Vec::new();
                in_string = false;
            } else {
                current.push(c);
            }
        } else if c == '(' {
            in_string = true;
        }
        i = i + 1;
    }
    assert(content@.take(content.len() as int) =~= content@);
    let newline: Vec<char> = vec!['\n'];
    assert(newline@ =~= "\n"@) by {
        reveal_strlit("\n");
    }
    join_chars(&values, newline.as_slice())
}

/// Whether a character counts as readable text in a PDF: alphanumeric, whitespace, a CJK
/// ideograph, or common punctuation.
pub open spec fn is_readable(c: char) -> bool {
    ||| unicode_alphanumeric(c)
    ||| is_ws(c)
    ||| ('\u{4e00}' <= c && c <= '\u{9fff}')
    ||| c == '，' || c == '。' || c == '、' || c == '；' || c == '：' || c == '？' || c == '！'
    ||| c == ',' || c == '.' || c == ';' || c == ':' || c == '?' || c == '!'
    ||| c == '-' || c == '_' || c == '/' || c == '\\'
}

/// Whether a character counts as readable text in a PDF.
pub fn is_readable_character(c: char) -> (r: bool)
    ensures
        r == is_readable(c),
{
    is_alphanumeric(c) || is_whitespace(c) || ('\u{4e00}' <= c && c <= '\u{9fff}') || c == '，'
        || c == '。' || c == '、' || c == '；' || c == '：' || c == '？' || c == '！' || c == ','
        || c == '.' || c == ';' || c == ':' || c == '?' || c == '!' || c == '-' || c == '_' || c
        == '/' || c == '\\'
}

/// The runs kept after a run ends: its normalised text, when it has at least four characters.
pub open spec fn with_run(runs: Seq<Seq<char>>, current: Seq<char>) -> Seq<Seq<char>> {
    if normalized(current).len() >= 4 {
        runs.push(normalized(current))
    } else {
        runs
    }
}

/// The state of the readable-run scan: the runs kept and the run being read.
pub open spec fn runs_scan(s: Seq<char>) -> (Seq<Seq<char>>, Seq<char>)
    decreases s.len(),
{
    if s.len() == 0 {
        (seq![], seq![])
    } else {
        let (runs, current) = runs_scan(s.drop_last());
        let c = s.last();
        if is_readable(c) {
            (runs, current.push(c))
        } else {
            (with_run(runs, current), seq![])
        }
    }
}

/// The runs of readable characters of a PDF's text, normalised, with at least four
/// characters, one per line.
pub open spec fn readable_runs_text(s: Seq<char>) -> Seq<char> {
    join_with(with_run(runs_scan(s).0, runs_scan(s).1), "\n"@)
}

/// Ends the current run, keeping it when long enough.
fn push_readable_run(runs: &mut Vec<Vec<char>>, current: &mut Vec<char>)
    ensures
        char_views(final(runs)@) == with_run(char_views(old(runs)@), old(current)@),
        final(current)@.len() == 0,
{
    let value = normalize_chars(current.as_slice());
    if value.len() >= 4 {
        let ghost before = runs@;
        runs.push(value);
        assert(char_views(runs@) =~= char_views(before).push(normalized(old(current)@)));
    }
    *current = Vec::new();
}

/// The runs of readable characters of a PDF's text, one per line.
pub fn extract_readable_runs(content: &[char]) -> (r: Vec<char>)
    ensures
        r@ == readable_runs_text(content@),
{
    let mut runs: Vec<Vec<char>> = Vec::new();
    let mut current: Vec<char> = Vec::new();
    let mut i: usize = 0;
    assert(content@.take(0) =~= Seq::<char>::empty());
    while i < content.len()
        invariant
            i <= content.len(),
            (char_views(runs@), current@) == runs_scan(content@.take(i as int)),
        decreases content.len() - i,
    {
        let c = content[i];
        assert(content@.take(i + 1).drop_last() =~= content@.take(i as int));
        assert(content@.take(i + 1).last() == c);
        if is_readable_character(c) {
            current.push(c);
        } else {
            push_readable_run(&mut runs, &mut current);
            assert(current@ =~= Seq::<char>::empty());
        }
        i = i + 1;
    }
    assert(content@.take(content.len() as int) =~= content@);
    push_readable_run(&mut runs, &mut current);
    let newline: Vec<char> = vec!['\n'];
    assert(newline@ =~= "\n"@) by {
        reveal_strlit("\n");
    }
    join_chars(&runs, newline.as_slice())
}

/// The text of a PDF: its literal strings when they hold at least eight characters, else its
/// readable runs.
pub open spec fn pdf_text(s: Seq<char>) -> Seq<char> {
    if pdf_literal_text(s).len() >= 8 {
        pdf_literal_text(s)
    } else {
        readable_runs_text(s)
    }
}

/// The text of a PDF, read from its characters.
pub fn pdf_text_of(content: &[char]) -> (r: Vec<char>)
    ensures
        r@ == pdf_text(content@),
{
    let literal = extract_pdf_literal_strings(content);
    if literal.len() >= 8 {
        literal
    } else {
        extract_readable_runs(content)
    }
}

} // verus!
