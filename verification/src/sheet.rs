//! Worksheet reading: cells, rows and the table insight written for each worksheet of a
//! workbook.
use vstd::prelude::*;

use crate::text::char_views;
use crate::text::chars_eq;
use crate::text::chars_of;
use crate::text::decimal;
use crate::text::decimal_chars;
use crate::text::digits_value;
use crate::text::is_digit;
use crate::text::join_strings;
use crate::text::join_with;
use crate::text::last_index_of;
use crate::text::last_index_of_char;
use crate::text::lemma_last_index_of;
use crate::text::normalize_chars;
use crate::text::normalized;
use crate::text::padded_decimal_chars;
use crate::text::push_chars;
use crate::text::push_str;
use crate::text::slice_chars;
use crate::text::string_of;
use crate::text::string_views;
use crate::text::trim_chars;
use crate::text::trimmed;
use crate::text::truncate_chars_of;
use crate::text::truncated;
use crate::text::zero_padded;
use crate::xml::attribute_value;
use crate::xml::first_tag_text;
use crate::xml::first_xml_tag_text;
use crate::xml::xml_attribute;
use crate::xml::xml_block_chars;
use crate::xml::xml_blocks;
use crate::xml::xml_text;
use crate::xml::xml_text_chars;
use crate::text::display_file_name;
use crate::text::file_name_of;
use crate::models::ParsedTableInsight;

verus! {

/// The most characters kept of a cell value.
pub const MAX_TABLE_CELL_CHARS: usize = 80;

/// How many rows after the header a table insight shows.
pub const TABLE_SAMPLE_ROWS: usize = 3;

/// The digits of a number text: without its leading `+`, if any.
pub open spec fn unsigned_digits(s: Seq<char>) -> Seq<char> {
    if s.len() > 0 && s[0] == '+' {
        s.drop_first()
    } else {
        s
    }
}

/// Whether every character of `s` is an ASCII digit.
pub open spec fn all_digits(s: Seq<char>) -> bool {
    forall|k: int| 0 <= k < s.len() ==> is_digit(#[trigger] s[k])
}

/// The number `str::parse::<usize>` reads from `s`: an optional `+`, then one or more ASCII
/// digits naming a number that fits.
pub open spec fn parsed_usize(s: Seq<char>) -> Option<usize> {
    if unsigned_digits(s).len() > 0 && all_digits(unsigned_digits(s)) && digits_value(unsigned_digits(s))
        <= usize::MAX {
        Some(digits_value(unsigned_digits(s)) as usize)
    } else {
        None
    }
}

/// Reads a number as `str::parse::<usize>` does.
pub fn parse_usize(v: &[char]) -> (r: Option<usize>)
    ensures
        r == parsed_usize(v@),
{
    let start: usize = if v.len() > 0 && v[0] == '+' {
        1
    } else {
        0
    };
    let ghost d = v@.skip(start as int);
    assert(d =~= unsigned_digits(v@));
    if v.len() == start {
        return None;
    }
    let mut value: usize = 0;
    let mut i: usize = start;
    let mut overflow = false;
    assert(d.take(0) =~= Seq::<char>::empty());
    while i < v.len()
        invariant
            start <= i <= v.len(),
            d == v@.skip(start as int),
            d == unsigned_digits(v@),
            forall|k: int| 0 <= k < i - start ==> is_digit(#[trigger] d[k]),
            !overflow ==> value == digits_value(d.take(i - start)),
            overflow ==> digits_value(d.take(i - start)) > usize::MAX,
        decreases v.len() - i,
    {
        let c = v[i];
        assert(d[i - start] == c);
        if !('0' <= c && c <= '9') {
            assert(!is_digit(d[i - start]));
            assert(!all_digits(d));
            return None;
        }
        let ghost pre = d.take(i - start);
        assert(d.take(i - start + 1).drop_last() =~= pre);
        assert(d.take(i - start + 1).last() == c);
        let digit: usize = (c as u32 - 48) as usize;
        if !overflow {
            match value.checked_mul(10) {
                Some(m) => match m.checked_add(digit) {
                    Some(n) => {
                        value = n;
                    },
                    None => {
                        overflow = true;
                    },
                },
                None => {
                    assert(digits_value(pre) * 10 + digit >= digits_value(pre) * 10) by (nonlinear_arith)
                        requires
                            digit >= 0,
                    ;
                    overflow = true;
                },
            }
        } else {
            assert(digits_value(pre) * 10 + digit >= digits_value(pre)) by (nonlinear_arith)
                requires
                    digit >= 0,
            ;
        }
        i = i + 1;
    }
    assert(d.take(v.len() - start) =~= d);
    if overflow {
        None
    } else {
        Some(value)
    }
}

/// The order of a worksheet part: the number in `…/sheetN.xml`, or `usize::MAX` for any other
/// name.
pub open spec fn sheet_order(name: Seq<char>) -> usize {
    let file_name = match last_index_of(name, '/') {
        Some(i) => name.skip(i + 1),
        None => name,
    };
    if file_name.len() >= 9 && file_name.take(5) == "sheet"@ && file_name.skip(file_name.len() - 4)
        == ".xml"@ {
        match parsed_usize(file_name.subrange(5, file_name.len() - 4)) {
            Some(n) => n,
            None => usize::MAX,
        }
    } else {
        usize::MAX
    }
}

/// The order of a worksheet part.
pub fn worksheet_sort_key(name: &str) -> (r: usize)
    ensures
        r == sheet_order(name@),
{
    proof {
        reveal_strlit("sheet");
        reveal_strlit(".xml");
    }
    let v = chars_of(name);
    let vlen = v.len();
    let file_name = match last_index_of_char(v.as_slice(), '/') {
        Some(i) => {
            proof {
                lemma_last_index_of(v@, '/');
            }
            slice_chars(v.as_slice(), i + 1, vlen)
        },
        None => v,
    };
    let n = file_name.len();
    if n < 9 {
        return usize::MAX;
    }
    let head = slice_chars(file_name.as_slice(), 0, 5);
    let tail = slice_chars(file_name.as_slice(), n - 4, n);
    assert(head@ =~= file_name@.take(5));
    assert(tail@ =~= file_name@.skip(n - 4));
    if !chars_eq(head.as_slice(), chars_of("sheet").as_slice()) || !chars_eq(tail.as_slice(), chars_of(".xml").as_slice()) {
        return usize::MAX;
    }
    let middle = slice_chars(file_name.as_slice(), 5, n - 4);
    match parse_usize(middle.as_slice()) {
        Some(k) => k,
        None => usize::MAX,
    }
}

/// The texts of the shared-string items of a workbook, in order.
pub open spec fn shared_strings_of(xml: Seq<char>) -> Seq<Seq<char>> {
    xml_blocks(xml, "si"@).map_values(|b: Seq<char>| xml_text(b))
}

/// The texts of the shared-string items of a workbook.
pub fn parse_shared_strings(xml: &str) -> (r: Vec<String>)
    ensures
        string_views(r@) == shared_strings_of(xml@),
{
    let v = chars_of(xml);
    let blocks = xml_block_chars(v.as_slice(), "si");
    let ghost all = xml_blocks(xml@, "si"@);
    let mut out: Vec<String> = Vec::new();
    let mut i: usize = 0;
    while i < blocks.len()
        invariant
            i <= blocks.len(),
            v@ == xml@,
            blocks@.len() == all.len(),
            all == xml_blocks(xml@, "si"@),
            forall|k: int| 0 <= k < blocks@.len() ==> #[trigger] blocks@[k]@ == all[k],
            string_views(out@) == all.take(i as int).map_values(|b: Seq<char>| xml_text(b)),
        decreases blocks.len() - i,
    {
        let text = xml_text_chars(blocks[i].as_slice());
        let ghost before = out@;
        out.push(string_of(text.as_slice()));
        assert(string_views(out@) =~= string_views(before).push(text@));
        assert(all.take(i + 1).map_values(|b: Seq<char>| xml_text(b)) =~= all.take(i as int).map_values(
            |b: Seq<char>| xml_text(b),
        ).push(xml_text(all[i as int])));
        i = i + 1;
    }
    assert(all.take(blocks.len() as int) =~= all);
    out
}

/// The zero-based column a run of letters names (`A` is 0, `Z` 25, `AA` 26): none for an
/// empty run, a character that is not an ASCII letter, or a column beyond `usize`.
pub open spec fn column_value(letters: Seq<char>) -> int
    decreases letters.len(),
{
    if letters.len() == 0 {
        0
    } else {
        column_value(letters.drop_last()) * 26 + (upper_code(letters.last()) - 64)
    }
}

/// The code of the ASCII uppercase form of `c`.
pub open spec fn upper_code(c: char) -> int {
    if 'a' <= c && c <= 'z' {
        c as int - 32
    } else {
        c as int
    }
}

/// Whether `c` is an ASCII letter.
pub open spec fn is_letter(c: char) -> bool {
    ('a' <= c && c <= 'z') || ('A' <= c && c <= 'Z')
}

/// The zero-based column a run of letters names, when it names one that fits.
pub open spec fn column_index_of(letters: Seq<char>) -> Option<usize> {
    if letters.len() == 0 || !(forall|k: int| 0 <= k < letters.len() ==> is_letter(#[trigger] letters[k]))
        || column_value(letters) - 1 > usize::MAX || !(forall|k: int|
        0 <= k <= letters.len() ==> #[trigger] column_value(letters.take(k)) <= usize::MAX) {
        None
    } else {
        Some((column_value(letters) - 1) as usize)
    }
}

/// The column value grows with each letter.
pub proof fn lemma_column_value_positive(letters: Seq<char>)
    requires
        forall|k: int| 0 <= k < letters.len() ==> is_letter(#[trigger] letters[k]),
    ensures
        letters.len() > 0 ==> column_value(letters) >= 1,
        column_value(letters) >= 0,
    decreases letters.len(),
{
    if letters.len() > 0 {
        let rest = letters.drop_last();
        assert forall|k: int| 0 <= k < rest.len() implies is_letter(#[trigger] rest[k]) by {
            assert(rest[k] == letters[k]);
        }
        lemma_column_value_positive(rest);
        assert(is_letter(letters[letters.len() - 1]));
        assert(column_value(rest) * 26 >= 0) by (nonlinear_arith)
            requires
                column_value(rest) >= 0,
        ;
    }
}

/// The zero-based column a run of letters names.
pub fn column_letters_to_index(letters: &[char]) -> (r: Option<usize>)
    ensures
        r == column_index_of(letters@),
{
    if letters.len() == 0 {
        return None;
    }
    let mut index: usize = 0;
    let mut i: usize = 0;
    assert(letters@.take(0) =~= Seq::<char>::empty());
    while i < letters.len()
        invariant
            i <= letters.len(),
            forall|k: int| 0 <= k < i ==> is_letter(#[trigger] letters@[k]),
            index == column_value(letters@.take(i as int)),
            forall|k: int| 0 <= k <= i ==> #[trigger] column_value(letters@.take(k)) <= usize::MAX,
        decreases letters.len() - i,
    {
        let c = letters[i];
        let upper = if 'a' <= c && c <= 'z' {
            ((c as u32) - 32) as u8
        } else {
            c as u8
        };
        if !(is_letter_char(c)) {
            proof {
                assert(!is_letter(letters@[i as int]));
            }
            return None;
        }
        assert(upper as int == upper_code(c));
        assert(letters@.take(i + 1).drop_last() =~= letters@.take(i as int));
        assert(letters@.take(i + 1).last() == c);
        let digit: usize = (upper - 64) as usize;
        match index.checked_mul(26) {
            Some(m) => match m.checked_add(digit) {
                Some(n) => {
                    index = n;
                },
                None => {
                    assert(column_value(letters@.take(i + 1)) > usize::MAX);
                    return None;
                },
            },
            None => {
                assert(column_value(letters@.take(i + 1)) > usize::MAX) by (nonlinear_arith)
                    requires
                        index * 26 > usize::MAX,
                        column_value(letters@.take(i + 1)) == index * 26 + digit,
                        digit >= 1,
                ;
                return None;
            },
        }
        i = i + 1;
    }
    assert(letters@.take(letters.len() as int) =~= letters@);
    proof {
        lemma_column_value_positive(letters@);
    }
    Some(index - 1)
}

/// Whether `c` is an ASCII letter.
fn is_letter_char(c: char) -> (r: bool)
    ensures
        r == is_letter(c),
{
    ('a' <= c && c <= 'z') || ('A' <= c && c <= 'Z')
}

/// The length of the run of ASCII letters at the start of `s`.
pub open spec fn letter_run(s: Seq<char>) -> nat
    decreases s.len(),
{
    if s.len() == 0 || !is_letter(s[0]) {
        0
    } else {
        1 + letter_run(s.drop_first())
    }
}

/// The letter run is a prefix of letters.
pub proof fn lemma_letter_run(s: Seq<char>)
    ensures
        letter_run(s) <= s.len(),
        forall|k: int| 0 <= k < letter_run(s) ==> is_letter(#[trigger] s[k]),
    decreases s.len(),
{
    if s.len() > 0 && is_letter(s[0]) {
        lemma_letter_run(s.drop_first());
        assert forall|k: int| 0 <= k < letter_run(s) implies is_letter(#[trigger] s[k]) by {
            if k > 0 {
                assert(s[k] == s.drop_first()[k - 1]);
            }
        }
    }
}

/// The zero-based column of a cell, read from the letters of its `r` reference.
pub open spec fn cell_column_of(cell: Seq<char>) -> Option<usize> {
    match attribute_value(cell, "r"@) {
        None => None,
        Some(reference) => column_index_of(reference.take(letter_run(reference) as int)),
    }
}

/// The zero-based column of a cell.
pub fn cell_column_index(cell: &str) -> (r: Option<usize>)
    ensures
        r == cell_column_of(cell@),
{
    match xml_attribute(cell, "r") {
        None => None,
        Some(reference) => {
            let v = chars_of(reference.as_str());
            let mut n: usize = 0;
            assert(v@.skip(0) =~= v@);
            while n < v.len() && is_letter_char(v[n])
                invariant
                    n <= v.len(),
                    letter_run(v@) == n + letter_run(v@.skip(n as int)),
                decreases v.len() - n,
            {
                assert(v@.skip(n as int).drop_first() =~= v@.skip(n + 1));
                n = n + 1;
            }
            let letters = slice_chars(v.as_slice(), 0, n);
            assert(letters@ =~= v@.take(letter_run(v@) as int));
            column_letters_to_index(letters.as_slice())
        },
    }
}

/// The raw text of a cell: the shared string its `v` element points at for type `s`, its
/// inline string for type `inlineStr`, else its `v` element.
pub open spec fn raw_cell_text(cell: Seq<char>, shared: Seq<Seq<char>>) -> Option<Seq<char>> {
    let cell_type = attribute_value(cell, "t"@);
    if cell_type == Some("s"@) {
        match first_tag_text(cell, "v"@) {
            None => None,
            Some(index) => match parsed_usize(index) {
                Some(n) => if n < shared.len() {
                    Some(shared[n as int])
                } else {
                    None
                },
                None => None,
            },
        }
    } else if cell_type == Some("inlineStr"@) {
        first_tag_text(cell, "is"@)
    } else {
        first_tag_text(cell, "v"@)
    }
}

/// The value of a cell: its raw text with whitespace normalised, none when that is empty,
/// else cut to `MAX_TABLE_CELL_CHARS` characters (with `…` when longer).
pub open spec fn cell_value_of(cell: Seq<char>, shared: Seq<Seq<char>>) -> Option<Seq<char>> {
    match raw_cell_text(cell, shared) {
        None => None,
        Some(raw) => if normalized(raw).len() == 0 {
            None
        } else {
            Some(truncated(normalized(raw), MAX_TABLE_CELL_CHARS as int))
        },
    }
}

/// The value of a cell.
pub fn worksheet_cell_value(cell: &str, shared: &Vec<String>) -> (r: Option<String>)
    ensures
        r matches Some(v) ==> cell_value_of(cell@, string_views(shared@)) == Some(v@),
        r is None ==> cell_value_of(cell@, string_views(shared@)) is None,
{
    let cell_type = xml_attribute(cell, "t");
    let is_shared = match &cell_type {
        Some(t) => chars_eq(chars_of(t.as_str()).as_slice(), chars_of("s").as_slice()),
        None => false,
    };
    let is_inline = match &cell_type {
        Some(t) => chars_eq(chars_of(t.as_str()).as_slice(), chars_of("inlineStr").as_slice()),
        None => false,
    };
    let raw: Option<String> = if is_shared {
        match first_xml_tag_text(cell, "v") {
            None => None,
            Some(index) => match parse_usize(chars_of(index.as_str()).as_slice()) {
                Some(n) => if n < shared.len() {
                    assert(string_views(shared@)[n as int] == shared@[n as int]@);
                    Some(shared[n].clone())
                } else {
                    None
                },
                None => None,
            },
        }
    } else if is_inline {
        first_xml_tag_text(cell, "is")
    } else {
        first_xml_tag_text(cell, "v")
    };
    assert(raw matches Some(x) ==> raw_cell_text(cell@, string_views(shared@)) == Some(x@));
    assert(raw is None ==> raw_cell_text(cell@, string_views(shared@)) is None);
    match raw {
        None => None,
        Some(text) => {
            let n = normalize_chars(chars_of(text.as_str()).as_slice());
            if n.len() == 0 {
                None
            } else {
                Some(string_of(truncate_chars_of(n.as_slice(), MAX_TABLE_CELL_CHARS).as_slice()))
            }
        },
    }
}

/// `n + 1`, or `usize::MAX` when that does not fit.
pub open spec fn next_column(n: int) -> int {
    if n < usize::MAX {
        n + 1
    } else {
        usize::MAX as int
    }
}

/// The values found in the first `n` cells of a row, the number of columns they span, and
/// the column a cell without a reference is taken to be in.
pub open spec fn row_scan(cells: Seq<Seq<char>>, shared: Seq<Seq<char>>, n: int) -> (Seq<Seq<char>>, int, int)
    decreases n,
{
    if n <= 0 {
        (seq![], 0, 0)
    } else {
        let (values, columns, fallback) = row_scan(cells, shared, n - 1);
        let cell = cells[n - 1];
        let column = match cell_column_of(cell) {
            Some(c) => c as int,
            None => fallback,
        };
        match cell_value_of(cell, shared) {
            Some(v) => (
                values.push(v),
                if columns >= next_column(column) {
                    columns
                } else {
                    next_column(column)
                },
                next_column(column),
            ),
            None => (values, columns, next_column(column)),
        }
    }
}

/// The values of a row and the number of columns they span.
pub open spec fn row_summary_of(row: Seq<char>, shared: Seq<Seq<char>>) -> (Seq<Seq<char>>, int) {
    let cells = xml_blocks(row, "c"@);
    let (values, columns, _) = row_scan(cells, shared, cells.len() as int);
    (values, columns)
}

/// The values of a row and the columns they span.
#[derive(Debug, Clone)]
pub struct WorksheetRowSummary {
    pub values: Vec<String>,
    pub column_count: usize,
}

/// The row scan keeps its counters within `usize`.
proof fn lemma_row_scan_bounds(cells: Seq<Seq<char>>, shared: Seq<Seq<char>>, n: int)
    ensures
        0 <= row_scan(cells, shared, n).1 <= usize::MAX,
        0 <= row_scan(cells, shared, n).2 <= usize::MAX,
    decreases n,
{
    if n > 0 {
        lemma_row_scan_bounds(cells, shared, n - 1);
    }
}

/// The values of a row (its cells with a value, in order) and the number of columns they
/// span: a cell's column comes from its reference, else it follows the previous cell.
pub fn worksheet_row_summary(row: &[char], shared: &Vec<String>) -> (r: WorksheetRowSummary)
    ensures
        string_views(r.values@) == row_summary_of(row@, string_views(shared@)).0,
        r.column_count == row_summary_of(row@, string_views(shared@)).1,
{
    let cells = xml_block_chars(row, "c");
    let ghost all = xml_blocks(row@, "c"@);
    let ghost sv = string_views(shared@);
    let mut values: Vec<String> = Vec::new();
    let mut columns: usize = 0;
    let mut fallback: usize = 0;
    let mut i: usize = 0;
    while i < cells.len()
        invariant
            i <= cells.len(),
            cells@.len() == all.len(),
            all == xml_blocks(row@, "c"@),
            sv == string_views(shared@),
            forall|k: int| 0 <= k < cells@.len() ==> #[trigger] cells@[k]@ == all[k],
            string_views(values@) == row_scan(all, sv, i as int).0,
            columns == row_scan(all, sv, i as int).1,
            fallback == row_scan(all, sv, i as int).2,
        decreases cells.len() - i,
    {
        proof {
            lemma_row_scan_bounds(all, sv, i as int);
        }
        let cell = string_of(cells[i].as_slice());
        assert(cell@ == all[i as int]);
        let column = match cell_column_index(cell.as_str()) {
            Some(c) => c,
            None => fallback,
        };
        let next = column.saturating_add(1);
        match worksheet_cell_value(cell.as_str(), shared) {
            Some(v) => {
                let ghost before = values@;
                values.push(v);
                assert(string_views(values@) =~= string_views(before).push(v@));
                if columns < next {
                    columns = next;
                }
            },
            None => {},
        }
        fallback = next;
        i = i + 1;
    }
    WorksheetRowSummary { values, column_count: columns }
}

/// The trimmed values of `values` that are not blank.
pub open spec fn non_empty_of(values: Seq<Seq<char>>) -> Seq<Seq<char>>
    decreases values.len(),
{
    if values.len() == 0 {
        seq![]
    } else {
        let before = non_empty_of(values.drop_last());
        if trimmed(values.last()).len() == 0 {
            before
        } else {
            before.push(trimmed(values.last()))
        }
    }
}

/// The trimmed values of `values` that are not blank.
pub fn non_empty_values(values: &Vec<String>) -> (r: Vec<String>)
    ensures
        string_views(r@) == non_empty_of(string_views(values@)),
{
    let ghost all = string_views(values@);
    let mut out: Vec<String> = Vec::new();
    let mut i: usize = 0;
    while i < values.len()
        invariant
            i <= values.len(),
            all == string_views(values@),
            string_views(out@) == non_empty_of(all.take(i as int)),
        decreases values.len() - i,
    {
        assert(all.take(i + 1).drop_last() =~= all.take(i as int));
        assert(all.take(i + 1).last() == values@[i as int]@);
        let t = trim_chars(chars_of(values[i].as_str()).as_slice());
        if t.len() > 0 {
            let ghost before = out@;
            out.push(string_of(t.as_slice()));
            assert(string_views(out@) =~= string_views(before).push(t@));
        }
        i = i + 1;
    }
    assert(all.take(values.len() as int) =~= all);
    out
}

/// The first `limit` values joined by `separator`, followed by `另有 N 项` when `N` more values
/// were left out.
pub open spec fn joined_limited(values: Seq<Seq<char>>, separator: Seq<char>, limit: nat) -> Seq<char> {
    if values.len() > limit {
        join_with(
            values.take(limit as int).push("另有 "@ + decimal((values.len() - limit) as nat) + " 项"@),
            separator,
        )
    } else {
        join_with(values, separator)
    }
}

/// The first `limit` values joined by `separator`, noting how many were left out.
pub fn join_limited(values: &Vec<String>, separator: &str, limit: usize) -> (r: String)
    ensures
        r@ == joined_limited(string_views(values@), separator@, limit as nat),
{
    let mut shown: Vec<String> = Vec::new();
    let mut i: usize = 0;
    while i < values.len() && i < limit
        invariant
            i <= values.len(),
            i <= limit,
            string_views(shown@) == string_views(values@).take(i as int),
        decreases values.len() - i,
    {
        let ghost before = shown@;
        let item = values[i].clone();
        assert(item@ == values@[i as int]@);
        shown.push(item);
        assert(string_views(shown@) =~= string_views(before).push(item@));
        assert(string_views(shown@) =~= string_views(values@).take(i + 1));
        i = i + 1;
    }
    if values.len() > limit {
        let mut note: Vec<char> = Vec::new();
        push_str(&mut note, "另有 ");
        push_chars(&mut note, decimal_chars((values.len() - limit) as u64).as_slice());
        push_str(&mut note, " 项");
        let ghost before = shown@;
        shown.push(string_of(note.as_slice()));
        assert(string_views(shown@) =~= string_views(before).push(note@));
    } else {
        assert(string_views(values@).take(values.len() as int) =~= string_views(values@));
    }
    join_strings(&shown, separator)
}

/// The sample text of a row: its non-blank values, at most eight, joined by ` | `.
pub open spec fn row_sample_of(row: Seq<Seq<char>>) -> Seq<char> {
    joined_limited(non_empty_of(row), " | "@, 8)
}

/// The sample text of a row.
pub fn row_sample(row: &Vec<String>) -> (r: String)
    ensures
        r@ == row_sample_of(string_views(row@)),
{
    let values = non_empty_values(row);
    join_limited(&values, " | ", 8)
}

/// The summaries of the rows among the first `n` that hold a value, in order.
pub open spec fn content_rows(rows: Seq<Seq<char>>, shared: Seq<Seq<char>>, n: int) -> Seq<(Seq<Seq<char>>, int)>
    decreases n,
{
    if n <= 0 {
        seq![]
    } else {
        let before = content_rows(rows, shared, n - 1);
        let summary = row_summary_of(rows[n - 1], shared);
        if summary.0.len() > 0 {
            before.push(summary)
        } else {
            before
        }
    }
}

/// The summaries of the rows of a worksheet that hold a value.
pub open spec fn table_rows(xml: Seq<char>, shared: Seq<Seq<char>>) -> Seq<(Seq<Seq<char>>, int)> {
    content_rows(xml_blocks(xml, "row"@), shared, xml_blocks(xml, "row"@).len() as int)
}

/// The largest column count among the first `n` summaries (zero for none).
pub open spec fn max_columns(rows: Seq<(Seq<Seq<char>>, int)>, n: int) -> int
    decreases n,
{
    if n <= 0 {
        0
    } else {
        let before = max_columns(rows, n - 1);
        if before >= rows[n - 1].1 {
            before
        } else {
            rows[n - 1].1
        }
    }
}

/// How a header row is described: its values, at most twelve, joined by `、`, or
/// `未识别表头` when it has none.
pub open spec fn header_summary_of(header: Seq<Seq<char>>) -> Seq<char> {
    if header.len() == 0 {
        "未识别表头"@
    } else {
        joined_limited(header, "、"@, 12)
    }
}

/// The sample lines of the first `n` sample rows: `样例 k：` and the row's sample, for rows
/// whose sample is not empty.
pub open spec fn sample_lines(samples: Seq<(Seq<Seq<char>>, int)>, n: int) -> Seq<Seq<char>>
    decreases n,
{
    if n <= 0 {
        seq![]
    } else {
        let before = sample_lines(samples, n - 1);
        let sample = row_sample_of(samples[n - 1].0);
        if sample.len() > 0 {
            before.push("样例 "@ + decimal(n as nat) + "："@ + sample)
        } else {
            before
        }
    }
}

/// The table insight of a worksheet as (title, body, summary, source locator): none when no
/// row holds a value. The first row with values is the header; the next three are samples.
pub open spec fn table_insight_of(
    relative_path: Seq<char>,
    sheet_index: nat,
    xml: Seq<char>,
    shared: Seq<Seq<char>>,
) -> Option<(Seq<char>, Seq<char>, Seq<char>, Seq<char>)> {
    let rows = table_rows(xml, shared);
    if rows.len() == 0 {
        None
    } else {
        let row_count = rows.len() as nat;
        let column_count = max_columns(rows, rows.len() as int) as nat;
        let header = rows[0].0;
        let samples = rows.subrange(1, if rows.len() < 4 { rows.len() as int } else { 4 });
        let header_summary = header_summary_of(header);
        let title = file_name_of(relative_path) + " · 工作表 "@ + decimal(sheet_index);
        let source_locator = relative_path + "#sheet-"@ + zero_padded(decimal(sheet_index), 3);
        let lines = seq![
            title,
            "来源："@ + source_locator,
            "结构："@ + decimal(row_count) + " 行，"@ + decimal(column_count) + " 列"@,
            "表头："@ + header_summary,
        ] + sample_lines(samples, samples.len() as int) + if header.len() > 0 {
            seq!["可问答字段："@ + header_summary]
        } else {
            seq![]
        };
        Some(
            (
                title,
                join_with(lines, "\n"@),
                "工作表 "@ + decimal(sheet_index) + "："@ + decimal(row_count) + " 行、"@ + decimal(
                    column_count,
                ) + " 列；表头："@ + header_summary,
                source_locator,
            ),
        )
    }
}

/// The view of a row summary.
pub open spec fn summary_view(summary: WorksheetRowSummary) -> (Seq<Seq<char>>, int) {
    (string_views(summary.values@), summary.column_count as int)
}

/// The views of row summaries.
pub open spec fn summary_views(rows: Seq<WorksheetRowSummary>) -> Seq<(Seq<Seq<char>>, int)> {
    rows.map_values(|r: WorksheetRowSummary| summary_view(r))
}

/// The column counts stay within `usize`.
proof fn lemma_max_columns_bound(rows: Seq<(Seq<Seq<char>>, int)>, n: int)
    requires
        n <= rows.len(),
        forall|k: int| 0 <= k < rows.len() ==> 0 <= #[trigger] rows[k].1 <= usize::MAX,
    ensures
        0 <= max_columns(rows, n) <= usize::MAX,
    decreases n,
{
    if n > 0 {
        lemma_max_columns_bound(rows, n - 1);
    }
}

/// Appends `text` as a new line.
fn push_line(lines: &mut Vec<String>, text: Vec<char>)
    ensures
        string_views(final(lines)@) == string_views(old(lines)@).push(text@),
{
    let ghost before = lines@;
    lines.push(string_of(text.as_slice()));
    assert(string_views(lines@) =~= string_views(before).push(text@));
}

/// The table insight of a worksheet: its title (file name and sheet number), a body listing
/// the source, the size, the header, up to three sample rows and the fields one can ask
/// about, a one-line summary, and the locator `path#sheet-NNN`. None when no row holds a
/// value.
pub fn worksheet_table_insight(
    relative_path: &str,
    sheet_index: usize,
    xml: &str,
    shared: &Vec<String>,
) -> (r: Option<ParsedTableInsight>)
    ensures
        r matches Some(t) ==> table_insight_of(relative_path@, sheet_index as nat, xml@, string_views(shared@))
            == Some((t.title@, t.body@, t.summary@, t.source_locator@)),
        r is None ==> table_insight_of(relative_path@, sheet_index as nat, xml@, string_views(shared@)) is None,
{
    let v = chars_of(xml);
    let blocks = xml_block_chars(v.as_slice(), "row");
    let ghost all = xml_blocks(xml@, "row"@);
    let ghost sv = string_views(shared@);
    let mut rows: Vec<WorksheetRowSummary> = Vec::new();
    let mut i: usize = 0;
    while i < blocks.len()
        invariant
            i <= blocks.len(),
            v@ == xml@,
            blocks@.len() == all.len(),
            all == xml_blocks(xml@, "row"@),
            sv == string_views(shared@),
            forall|k: int| 0 <= k < blocks@.len() ==> #[trigger] blocks@[k]@ == all[k],
            summary_views(rows@) == content_rows(all, sv, i as int),
        decreases blocks.len() - i,
    {
        let summary = worksheet_row_summary(blocks[i].as_slice(), shared);
        if summary.values.len() > 0 {
            let ghost before = rows@;
            rows.push(summary);
            assert(summary_views(rows@) =~= summary_views(before).push(summary_view(summary)));
        }
        i = i + 1;
    }
    let ghost table = table_rows(xml@, sv);
    assert(summary_views(rows@) == table);
    if rows.len() == 0 {
        return None;
    }
    assert(forall|k: int| 0 <= k < rows@.len() ==> #[trigger] table[k] == summary_view(rows@[k]));
    let mut columns: usize = 0;
    let mut j: usize = 0;
    while j < rows.len()
        invariant
            j <= rows.len(),
            summary_views(rows@) == table,
            columns == max_columns(table, j as int),
        decreases rows.len() - j,
    {
        assert(table[j as int] == summary_view(rows@[j as int]));
        if columns < rows[j].column_count {
            columns = rows[j].column_count;
        }
        j = j + 1;
    }
    let row_count = rows.len();
    let header = &rows[0].values;
    let header_summary = if header.len() == 0 {
        string_of(chars_of("未识别表头").as_slice())
    } else {
        join_limited(header, "、", 12)
    };
    let mut title: Vec<char> = Vec::new();
    push_str(&mut title, display_file_name(relative_path).as_str());
    push_str(&mut title, " · 工作表 ");
    push_chars(&mut title, decimal_chars(sheet_index as u64).as_slice());
    let mut locator: Vec<char> = Vec::new();
    push_str(&mut locator, relative_path);
    push_str(&mut locator, "#sheet-");
    push_chars(&mut locator, padded_decimal_chars(sheet_index as u64, 3).as_slice());
    let mut lines: Vec<String> = Vec::new();
    let title_text = string_of(title.as_slice());
    push_line(&mut lines, chars_of(title_text.as_str()));
    let mut source_line: Vec<char> = Vec::new();
    push_str(&mut source_line, "来源：");
    push_chars(&mut source_line, locator.as_slice());
    push_line(&mut lines, source_line);
    let mut shape_line: Vec<char> = Vec::new();
    push_str(&mut shape_line, "结构：");
    push_chars(&mut shape_line, decimal_chars(row_count as u64).as_slice());
    push_str(&mut shape_line, " 行，");
    push_chars(&mut shape_line, decimal_chars(columns as u64).as_slice());
    push_str(&mut shape_line, " 列");
    push_line(&mut lines, shape_line);
    let mut header_line: Vec<char> = Vec::new();
    push_str(&mut header_line, "表头：");
    push_str(&mut header_line, header_summary.as_str());
    push_line(&mut lines, header_line);
    let sample_end: usize = if row_count < 4 {
        row_count
    } else {
        4
    };
    let ghost samples = table.subrange(1, sample_end as int);
    let ghost fixed = string_views(lines@);
    let mut k: usize = 1;
    while k < sample_end
        invariant
            1 <= k <= sample_end,
            sample_end <= rows@.len(),
            summary_views(rows@) == table,
            samples == table.subrange(1, sample_end as int),
            string_views(lines@) == fixed + sample_lines(samples, k - 1),
        decreases sample_end - k,
    {
        assert(samples[k - 1] == summary_view(rows@[k as int]));
        let sample = row_sample(&rows[k].values);
        if chars_of(sample.as_str()).len() > 0 {
            let mut line: Vec<char> = Vec::new();
            push_str(&mut line, "样例 ");
            push_chars(&mut line, decimal_chars(k as u64).as_slice());
            push_str(&mut line, "：");
            push_str(&mut line, sample.as_str());
            push_line(&mut lines, line);
        }
        k = k + 1;
    }
    if header.len() > 0 {
        let mut fields: Vec<char> = Vec::new();
        push_str(&mut fields, "可问答字段：");
        push_str(&mut fields, header_summary.as_str());
        push_line(&mut lines, fields);
    }
    let ghost rows_v = table;
    let ghost hs = header_summary_of(table[0].0);
    assert(string_views(header@) == table[0].0);
    assert(header_summary@ == hs);
    assert(title_text@ == file_name_of(relative_path@) + " · 工作表 "@ + decimal(sheet_index as nat));
    assert(locator@ == relative_path@ + "#sheet-"@ + zero_padded(decimal(sheet_index as nat), 3));
    assert(samples.len() == sample_end - 1);
    assert(string_views(lines@) == seq![
        file_name_of(relative_path@) + " · 工作表 "@ + decimal(sheet_index as nat),
        "来源："@ + locator@,
        "结构："@ + decimal(row_count as nat) + " 行，"@ + decimal(columns as nat) + " 列"@,
        "表头："@ + hs,
    ] + sample_lines(samples, samples.len() as int) + if table[0].0.len() > 0 {
        seq!["可问答字段："@ + hs]
    } else {
        seq![]
    });
    let body = join_strings(&lines, "\n");
    let mut summary: Vec<char> = Vec::new();
    push_str(&mut summary, "工作表 ");
    push_chars(&mut summary, decimal_chars(sheet_index as u64).as_slice());
    push_str(&mut summary, "：");
    push_chars(&mut summary, decimal_chars(row_count as u64).as_slice());
    push_str(&mut summary, " 行、");
    push_chars(&mut summary, decimal_chars(columns as u64).as_slice());
    push_str(&mut summary, " 列；表头：");
    push_str(&mut summary, header_summary.as_str());
    Some(
        ParsedTableInsight {
            title: title_text,
            body,
            summary: string_of(summary.as_slice()),
            source_locator: string_of(locator.as_slice()),
        },
    )
}

/// The widest of the first `n` rows has `max_columns(rows, n)` columns: no row is wider, and
/// unless the count is zero some row has exactly that many.
proof fn lemma_max_columns_is_widest(rows: Seq<(Seq<Seq<char>>, int)>, n: int)
    requires
        0 <= n <= rows.len(),
    ensures
        max_columns(rows, n) >= 0,
        forall|k: int| 0 <= k < n ==> #[trigger] rows[k].1 <= max_columns(rows, n),
        max_columns(rows, n) == 0 || exists|j: int| 0 <= j < n && #[trigger] rows[j].1 == max_columns(rows, n),
    decreases n,
{
    if n > 0 {
        lemma_max_columns_is_widest(rows, n - 1);
        if max_columns(rows, n - 1) < rows[n - 1].1 {
            assert(rows[n - 1].1 == max_columns(rows, n));
        } else if max_columns(rows, n - 1) != 0 {
            let j = choose|j: int| 0 <= j < n - 1 && #[trigger] rows[j].1 == max_columns(rows, n - 1);
            assert(rows[j].1 == max_columns(rows, n));
        }
    }
}

/// A worksheet insight reports as its column count that of the widest row holding a value:
/// no content row, the header included, has more columns than the count in its summary, and
/// unless the count is zero some content row has exactly that many.
pub proof fn law_insight_counts_the_widest_row(
    relative_path: Seq<char>,
    sheet_index: nat,
    xml: Seq<char>,
    shared: Seq<Seq<char>>,
)
    ensures
        table_insight_of(relative_path, sheet_index, xml, shared) matches Some(t) ==> exists|c: nat|
            {
                let rows = table_rows(xml, shared);
                &&& t.2 == "工作表 "@ + decimal(sheet_index) + "："@ + decimal(rows.len()) + " 行、"@
                    + #[trigger] decimal(c) + " 列；表头："@ + header_summary_of(rows[0].0)
                &&& forall|k: int| 0 <= k < rows.len() ==> #[trigger] rows[k].1 <= c
                &&& (c == 0 || exists|j: int| 0 <= j < rows.len() && #[trigger] rows[j].1 == c)
            },
{
    let rows = table_rows(xml, shared);
    if rows.len() > 0 {
        lemma_max_columns_is_widest(rows, rows.len() as int);
        let c = max_columns(rows, rows.len() as int) as nat;
        assert(decimal(c) == decimal(c));
    }
}

} // verus!
