//! Character-level text utilities shared by the parsers, the chunker and the search code.
use vstd::prelude::*;
use vstd::std_specs::iter::IteratorSpec;

verus! {

broadcast use vstd::string::group_string_axioms;

/// `String::push` appends one character to the end of the string.
pub assume_specification[ String::push ](string: &mut String, ch: char)
    ensures
        final(string)@ == old(string)@.push(ch),
;

/// The characters for which `char::is_whitespace` holds (the Unicode `White_Space` property).
pub open spec fn is_ws(c: char) -> bool {
    ||| ('\u{9}' <= c && c <= '\u{d}')
    ||| c == ' '
    ||| c == '\u{85}'
    ||| c == '\u{a0}'
    ||| c == '\u{1680}'
    ||| ('\u{2000}' <= c && c <= '\u{200a}')
    ||| c == '\u{2028}'
    ||| c == '\u{2029}'
    ||| c == '\u{202f}'
    ||| c == '\u{205f}'
    ||| c == '\u{3000}'
}

/// Executable form of `is_ws`.
pub fn is_whitespace(c: char) -> (r: bool)
    ensures
        r == is_ws(c),
{
    ('\u{9}' <= c && c <= '\u{d}') || c == ' ' || c == '\u{85}' || c == '\u{a0}' || c == '\u{1680}'
        || ('\u{2000}' <= c && c <= '\u{200a}') || c == '\u{2028}' || c == '\u{2029}' || c
        == '\u{202f}' || c == '\u{205f}' || c == '\u{3000}'
}

/// The maximal runs of non-whitespace characters of `s`, in order.
pub open spec fn words(s: Seq<char>) -> Seq<Seq<char>>
    decreases s.len(),
{
    if s.len() == 0 {
        seq![]
    } else {
        let w = words(s.drop_last());
        let c = s.last();
        if is_ws(c) {
            w
        } else if s.len() >= 2 && !is_ws(s[s.len() - 2]) {
            w.update(w.len() - 1, w.last().push(c))
        } else {
            w.push(seq![c])
        }
    }
}

/// `parts` joined with `sep` between consecutive parts.
pub open spec fn join_with(parts: Seq<Seq<char>>, sep: Seq<char>) -> Seq<char>
    decreases parts.len(),
{
    if parts.len() == 0 {
        seq![]
    } else if parts.len() == 1 {
        parts[0]
    } else {
        join_with(parts.drop_last(), sep) + sep + parts.last()
    }
}

/// The words of `s` separated by single spaces (`split_whitespace` then `join(" ")`).
pub open spec fn normalized(s: Seq<char>) -> Seq<char> {
    join_with(words(s), seq![' '])
}

/// Every word is non-empty, and when the text ends in a non-space its last word ends with it.
pub proof fn lemma_words_shape(s: Seq<char>)
    ensures
        forall|k: int| 0 <= k < words(s).len() ==> #[trigger] words(s)[k].len() > 0,
        s.len() > 0 && !is_ws(s.last()) ==> words(s).len() > 0,
        words(s).len() == 0 ==> forall|k: int| 0 <= k < s.len() ==> is_ws(#[trigger] s[k]),
    decreases s.len(),
{
    if s.len() > 0 {
        lemma_words_shape(s.drop_last());
        let w = words(s.drop_last());
        if words(s).len() == 0 {
            assert forall|k: int| 0 <= k < s.len() implies is_ws(#[trigger] s[k]) by {
                if k < s.len() - 1 {
                    assert(s.drop_last()[k] == s[k]);
                }
            }
        }
    }
}

/// Joining after appending one part adds the separator and the part.
pub proof fn lemma_join_push(parts: Seq<Seq<char>>, sep: Seq<char>, x: Seq<char>)
    requires
        parts.len() > 0,
    ensures
        join_with(parts.push(x), sep) == join_with(parts, sep) + sep + x,
{
    assert(parts.push(x).drop_last() =~= parts);
}

/// Extending the last part extends the joined text.
pub proof fn lemma_join_extend_last(parts: Seq<Seq<char>>, sep: Seq<char>, c: char)
    requires
        parts.len() > 0,
    ensures
        join_with(parts.update(parts.len() - 1, parts.last().push(c)), sep) == join_with(
            parts,
            sep,
        ).push(c),
{
    let q = parts.update(parts.len() - 1, parts.last().push(c));
    if parts.len() == 1 {
    } else {
        assert(q.drop_last() =~= parts.drop_last());
        assert((join_with(parts.drop_last(), sep) + sep + parts.last()).push(c) =~= join_with(
            parts.drop_last(),
            sep,
        ) + sep + parts.last().push(c));
    }
}

/// Joining non-empty parts gives an empty text only when there are no parts.
pub proof fn lemma_join_empty(parts: Seq<Seq<char>>, sep: Seq<char>)
    requires
        forall|k: int| 0 <= k < parts.len() ==> #[trigger] parts[k].len() > 0,
    ensures
        (join_with(parts, sep).len() == 0) == (parts.len() == 0),
    decreases parts.len(),
{
    if parts.len() > 1 {
        assert(parts.last().len() > 0);
    } else if parts.len() == 1 {
        assert(parts[0].len() > 0);
    }
}

/// The characters of `s`, in order.
pub fn chars_of(s: &str) -> (r: Vec<char>)
    ensures
        r@ == s@,
{
    let mut out: Vec<char> = Vec::new();
    let mut it = s.chars();
    let ghost all = s@;
    loop
        invariant
            all == s@,
            it.remaining() == all.skip(out@.len() as int),
            out@ == all.take(out@.len() as int),
            out@.len() <= all.len(),
            it.obeys_prophetic_iter_laws(),
        ensures
            out@ == all,
        decreases all.len() - out@.len(),
    {
        match it.next() {
            Some(c) => {
                out.push(c);
            },
            None => {
                assert(out@ =~= all);
                break ;
            },
        }
    }
    out
}

/// A string holding the characters of `v`.
pub fn string_of(v: &[char]) -> (r: String)
    ensures
        r@ == v@,
{
    let mut s = String::new();
    let mut i: usize = 0;
    while i < v.len()
        invariant
            i <= v.len(),
            s@ == v@.take(i as int),
        decreases v.len() - i,
    {
        s.push(v[i]);
        i = i + 1;
        assert(s@ =~= v@.take(i as int));
    }
    assert(v@.take(v.len() as int) =~= v@);
    s
}

/// The words of `v` separated by single spaces.
pub fn normalize_chars(v: &[char]) -> (r: Vec<char>)
    ensures
        r@ == normalized(v@),
{
    let mut out: Vec<char> = Vec::new();
    let mut i: usize = 0;
    let ghost sp: Seq<char> = seq![' '];
    while i < v.len()
        invariant
            i <= v.len(),
            sp == seq![' '],
            out@ == join_with(words(v@.take(i as int)), sp),
            (out@.len() == 0) == (words(v@.take(i as int)).len() == 0),
        decreases v.len() - i,
    {
        let c = v[i];
        let ghost pre = v@.take(i as int);
        let ghost post = v@.take(i + 1);
        assert(post.drop_last() =~= pre);
        proof {
            lemma_words_shape(pre);
            lemma_words_shape(post);
        }
        if is_whitespace(c) {
        } else if i >= 1 && !is_whitespace(v[i - 1]) {
            assert(pre.last() == v@[i - 1]);
            proof {
                lemma_join_extend_last(words(pre), sp, c);
            }
            out.push(c);
        } else {
            if out.len() > 0 {
                proof {
                    lemma_join_push(words(pre), sp, seq![c]);
                }
                out.push(' ');
                out.push(c);
                assert(out@ =~= join_with(words(pre), sp) + sp + seq![c]);
            } else {
                assert(words(pre).push(seq![c]) =~= seq![seq![c]]);
                out.push(c);
                assert(out@ =~= seq![c]);
            }
        }
        i = i + 1;
        proof {
            lemma_join_empty(words(post), sp);
        }
    }
    assert(v@.take(v.len() as int) =~= v@);
    out
}

/// `split_whitespace` followed by `join(" ")`.
pub fn normalize_text(value: &str) -> (r: String)
    ensures
        r@ == normalized(value@),
{
    let v = chars_of(value);
    let n = normalize_chars(v.as_slice());
    string_of(n.as_slice())
}


/// Appends the characters of `s` to `out`.
pub fn push_str(out: &mut Vec<char>, s: &str)
    ensures
        final(out)@ == old(out)@ + s@,
{
    let v = chars_of(s);
    push_chars(out, v.as_slice());
}

/// Appends the characters of `v` to `out`.
pub fn push_chars(out: &mut Vec<char>, v: &[char])
    ensures
        final(out)@ == old(out)@ + v@,
{
    let ghost start = out@;
    let mut i: usize = 0;
    while i < v.len()
        invariant
            i <= v.len(),
            out@ == start + v@.take(i as int),
        decreases v.len() - i,
    {
        out.push(v[i]);
        i = i + 1;
        assert(out@ =~= start + v@.take(i as int));
    }
    assert(v@.take(v.len() as int) =~= v@);
}

/// The first `max_chars` characters of `s`.
pub open spec fn first_chars(s: Seq<char>, max_chars: int) -> Seq<char> {
    if s.len() <= max_chars {
        s
    } else {
        s.take(max_chars)
    }
}

/// At most `max_chars` characters of `s`, followed by `…` when characters were cut off.
pub open spec fn truncated(s: Seq<char>, max_chars: int) -> Seq<char> {
    if s.len() <= max_chars {
        s
    } else {
        s.take(max_chars).push('…')
    }
}

/// The first `max_chars` characters of `v`.
pub fn take_chars_of(v: &[char], max_chars: usize) -> (r: Vec<char>)
    ensures
        r@ == first_chars(v@, max_chars as int),
{
    let mut out: Vec<char> = Vec::new();
    let mut i: usize = 0;
    while i < v.len() && i < max_chars
        invariant
            i <= v.len(),
            i <= max_chars,
            out@ == v@.take(i as int),
        decreases v.len() - i,
    {
        out.push(v[i]);
        i = i + 1;
        assert(out@ =~= v@.take(i as int));
    }
    if v.len() <= max_chars {
        assert(v@.take(v.len() as int) =~= v@);
    }
    out
}

/// `truncate_chars` on a character vector.
pub fn truncate_chars_of(v: &[char], max_chars: usize) -> (r: Vec<char>)
    ensures
        r@ == truncated(v@, max_chars as int),
{
    let mut out = take_chars_of(v, max_chars);
    if v.len() > max_chars {
        out.push('…');
    }
    out
}

/// At most `max_chars` characters of `value`, followed by `…` when the text was longer.
pub fn truncate_chars(value: &str, max_chars: usize) -> (r: String)
    ensures
        r@ == truncated(value@, max_chars as int),
{
    let v = chars_of(value);
    let t = truncate_chars_of(v.as_slice(), max_chars);
    string_of(t.as_slice())
}

/// The first `max_chars` characters of `value`.
pub fn take_chars(value: &str, max_chars: usize) -> (r: String)
    ensures
        r@ == first_chars(value@, max_chars as int),
{
    let v = chars_of(value);
    let t = take_chars_of(v.as_slice(), max_chars);
    string_of(t.as_slice())
}

/// The number of characters of `value`, saturated at `u32::MAX`.
pub fn char_count(value: &str) -> (r: u32)
    ensures
        r == if value@.len() <= u32::MAX { value@.len() } else { u32::MAX as nat },
{
    let v = chars_of(value);
    if v.len() <= 4294967295usize {
        v.len() as u32
    } else {
        4294967295u32
    }
}

/// Scans `s` line by line: how many finished lines held a non-space character, and
/// whether the current (unfinished) line holds one.
pub open spec fn line_scan(s: Seq<char>) -> (nat, bool)
    decreases s.len(),
{
    if s.len() == 0 {
        (0, false)
    } else {
        let (n, has) = line_scan(s.drop_last());
        let c = s.last();
        if c == '\n' {
            (if has { n + 1 } else { n }, false)
        } else {
            (n, has || !is_ws(c))
        }
    }
}

/// The number of lines of `s` that are not blank.
pub open spec fn nonblank_lines(s: Seq<char>) -> nat {
    let (n, has) = line_scan(s);
    if has {
        n + 1
    } else {
        n
    }
}

/// The number of non-blank lines of `value`, at least 1, saturated at `u32::MAX`.
pub fn line_count(value: &str) -> (r: u32)
    ensures
        r == if nonblank_lines(value@) == 0 {
            1
        } else if nonblank_lines(value@) <= u32::MAX {
            nonblank_lines(value@)
        } else {
            u32::MAX as nat
        },
{
    let v = chars_of(value);
    let mut count: usize = 0;
    let mut has = false;
    let mut i: usize = 0;
    while i < v.len()
        invariant
            i <= v.len(),
            count + (if has { 1int } else { 0int }) <= i,
            line_scan(v@.take(i as int)) == (count as nat, has),
        decreases v.len() - i,
    {
        let c = v[i];
        assert(v@.take(i + 1).drop_last() =~= v@.take(i as int));
        if c == '\n' {
            if has {
                count = count + 1;
            }
            has = false;
        } else {
            has = has || !is_whitespace(c);
        }
        i = i + 1;
    }
    assert(v@.take(v.len() as int) =~= v@);
    let total = if has { count + 1 } else { count };
    if total == 0 {
        1
    } else if total <= 4294967295usize {
        total as u32
    } else {
        4294967295u32
    }
}

/// The position of the last `\` or `/` in `s`, if any.
pub open spec fn last_separator(s: Seq<char>) -> Option<int>
    decreases s.len(),
{
    if s.len() == 0 {
        None
    } else if s.last() == '\\' || s.last() == '/' {
        Some(s.len() - 1)
    } else {
        last_separator(s.drop_last())
    }
}

/// The last path component of `path` (separators `\` and `/`), or the whole path when that
/// component is empty.
pub open spec fn file_name_of(path: Seq<char>) -> Seq<char> {
    let name = match last_separator(path) {
        Some(i) => path.skip(i + 1),
        None => path,
    };
    if name.len() == 0 {
        path
    } else {
        name
    }
}

proof fn lemma_last_separator_bounds(s: Seq<char>)
    ensures
        last_separator(s) matches Some(i) ==> 0 <= i < s.len(),
    decreases s.len(),
{
    if s.len() > 0 {
        lemma_last_separator_bounds(s.drop_last());
    }
}

/// `file_name_of` on a character vector.
pub fn file_name_chars(v: &[char]) -> (r: Vec<char>)
    ensures
        r@ == file_name_of(v@),
{
    let mut i: usize = v.len();
    assert(v@.take(v.len() as int) =~= v@);
    while i > 0
        invariant
            i <= v.len(),
            last_separator(v@) == last_separator(v@.take(i as int)),
        ensures
            i <= v.len(),
            last_separator(v@) == last_separator(v@.take(i as int)),
            i == 0 || v@[i - 1] == '\\' || v@[i - 1] == '/',
        decreases i,
    {
        let c = v[i - 1];
        assert(v@.take(i as int).last() == c);
        if c == '\\' || c == '/' {
            break ;
        }
        assert(v@.take(i as int).drop_last() =~= v@.take(i - 1));
        i = i - 1;
    }
    assert(v@.take(v.len() as int) =~= v@);
    let mut name: Vec<char> = Vec::new();
    let mut j: usize = i;
    while j < v.len()
        invariant
            i <= j <= v.len(),
            name@ == v@.subrange(i as int, j as int),
        decreases v.len() - j,
    {
        name.push(v[j]);
        j = j + 1;
        assert(name@ =~= v@.subrange(i as int, j as int));
    }
    proof {
        if i > 0 {
            assert(v@.take(i as int).last() == v@[i - 1]);
            assert(last_separator(v@) == Some(i - 1));
        }
        if i == 0 {
            assert(v@.take(0) =~= Seq::<char>::empty());
            assert(name@ =~= v@);
        } else {
            assert(name@ =~= v@.skip(i as int));
        }
    }
    if name.len() == 0 {
        let mut whole: Vec<char> = Vec::new();
        push_chars(&mut whole, v);
        whole
    } else {
        name
    }
}

/// The file name shown for a relative path: its last component.
pub fn display_file_name(relative_path: &str) -> (r: String)
    ensures
        r@ == file_name_of(relative_path@),
{
    let v = chars_of(relative_path);
    let n = file_name_chars(v.as_slice());
    string_of(n.as_slice())
}


/// `s` without its leading whitespace.
pub open spec fn trim_start(s: Seq<char>) -> Seq<char>
    decreases s.len(),
{
    if s.len() > 0 && is_ws(s[0]) {
        trim_start(s.drop_first())
    } else {
        s
    }
}

/// `s` without its trailing whitespace.
pub open spec fn trim_end(s: Seq<char>) -> Seq<char>
    decreases s.len(),
{
    if s.len() > 0 && is_ws(s.last()) {
        trim_end(s.drop_last())
    } else {
        s
    }
}

/// `s` without leading and trailing whitespace (`str::trim`).
pub open spec fn trimmed(s: Seq<char>) -> Seq<char> {
    trim_end(trim_start(s))
}

/// `trimmed` on a character vector.
pub fn trim_chars(v: &[char]) -> (r: Vec<char>)
    ensures
        r@ == trimmed(v@),
{
    let mut i: usize = 0;
    assert(v@.skip(0) =~= v@);
    while i < v.len() && is_whitespace(v[i])
        invariant
            i <= v.len(),
            trim_start(v@) == trim_start(v@.skip(i as int)),
        decreases v.len() - i,
    {
        assert(v@.skip(i as int).drop_first() =~= v@.skip(i + 1));
        i = i + 1;
    }
    let mut j: usize = v.len();
    assert(v@.skip(i as int) =~= v@.subrange(i as int, j as int));
    while j > i && is_whitespace(v[j - 1])
        invariant
            i <= j <= v.len(),
            trimmed(v@) == trim_end(v@.subrange(i as int, j as int)),
        decreases j,
    {
        assert(v@.subrange(i as int, j as int).drop_last() =~= v@.subrange(i as int, j - 1));
        j = j - 1;
    }
    let mut out: Vec<char> = Vec::new();
    let mut k: usize = i;
    while k < j
        invariant
            i <= k <= j,
            j <= v.len(),
            out@ == v@.subrange(i as int, k as int),
        decreases j - k,
    {
        out.push(v[k]);
        k = k + 1;
        assert(out@ =~= v@.subrange(i as int, k as int));
    }
    out
}

/// `str::trim`.
pub fn trim(value: &str) -> (r: String)
    ensures
        r@ == trimmed(value@),
{
    let v = chars_of(value);
    let t = trim_chars(v.as_slice());
    string_of(t.as_slice())
}

/// Whether `s` begins with `p`.
pub open spec fn has_prefix(s: Seq<char>, p: Seq<char>) -> bool {
    p.len() <= s.len() && s.take(p.len() as int) == p
}

/// Whether `s` ends with `p`.
pub open spec fn has_suffix(s: Seq<char>, p: Seq<char>) -> bool {
    p.len() <= s.len() && s.skip(s.len() - p.len()) == p
}

/// Whether `a` and `b` hold the same characters.
pub fn chars_eq(a: &[char], b: &[char]) -> (r: bool)
    ensures
        r == (a@ == b@),
{
    if a.len() != b.len() {
        return false;
    }
    let mut i: usize = 0;
    while i < a.len()
        invariant
            i <= a.len(),
            a.len() == b.len(),
            a@.take(i as int) == b@.take(i as int),
        decreases a.len() - i,
    {
        if a[i] != b[i] {
            assert(a@[i as int] != b@[i as int]);
            return false;
        }
        i = i + 1;
        assert(a@.take(i as int) =~= b@.take(i as int)) by {
            assert forall|k: int| 0 <= k < i implies a@.take(i as int)[k] == b@.take(i as int)[k] by {
                if k < i - 1 {
                    assert(a@.take(i - 1)[k] == b@.take(i - 1)[k]);
                }
            }
        }
    }
    assert(a@ =~= a@.take(a.len() as int));
    assert(b@ =~= b@.take(b.len() as int));
    true
}

/// Whether `s` holds `p` at position `at`.
pub open spec fn occurs_at(s: Seq<char>, p: Seq<char>, at: int) -> bool {
    0 <= at && at + p.len() <= s.len() && s.subrange(at, at + p.len()) == p
}

/// Whether `v` holds `p` at position `at`.
pub fn matches_at(v: &[char], p: &[char], at: usize) -> (r: bool)
    ensures
        r == occurs_at(v@, p@, at as int),
{
    if at > v.len() || p.len() > v.len() - at {
        return false;
    }
    let mut i: usize = 0;
    while i < p.len()
        invariant
            i <= p.len(),
            at + p.len() <= v.len(),
            v@.subrange(at as int, at + i) == p@.take(i as int),
        decreases p.len() - i,
    {
        if v[at + i] != p[i] {
            assert(v@.subrange(at as int, at + p.len())[i as int] != p@[i as int]);
            return false;
        }
        i = i + 1;
        assert(v@.subrange(at as int, at + i) =~= p@.take(i as int)) by {
            assert forall|k: int| 0 <= k < i implies v@.subrange(at as int, at + i)[k] == p@.take(
                i as int,
            )[k] by {
                if k < i - 1 {
                    assert(v@.subrange(at as int, at + i - 1)[k] == p@.take(i - 1)[k]);
                }
            }
        }
    }
    assert(p@.take(p.len() as int) =~= p@);
    true
}

/// Whether `p` is a prefix of `v`.
pub fn starts_with_chars(v: &[char], p: &[char]) -> (r: bool)
    ensures
        r == has_prefix(v@, p@),
{
    let r = matches_at(v, p, 0);
    proof {
        if p@.len() <= v@.len() {
            assert(v@.subrange(0, p@.len() as int) =~= v@.take(p@.len() as int));
        }
    }
    r
}

/// Whether `p` is a suffix of `v`.
pub fn ends_with_chars(v: &[char], p: &[char]) -> (r: bool)
    ensures
        r == has_suffix(v@, p@),
{
    if p.len() > v.len() {
        return false;
    }
    let r = matches_at(v, p, v.len() - p.len());
    proof {
        assert(v@.subrange(v@.len() - p@.len(), v@.len() as int) =~= v@.skip(
            v@.len() - p@.len(),
        ));
    }
    r
}

/// The first position at or after `from` where `p` occurs in `s`.
pub open spec fn find_from(s: Seq<char>, p: Seq<char>, from: int) -> Option<int>
    decreases s.len() + 1 - from,
{
    if from < 0 || from + p.len() > s.len() {
        None
    } else if occurs_at(s, p, from) {
        Some(from)
    } else {
        find_from(s, p, from + 1)
    }
}

/// The first position where `p` occurs in `s` (`str::find`).
pub open spec fn find_first(s: Seq<char>, p: Seq<char>) -> Option<int> {
    find_from(s, p, 0)
}

/// A found position lies in range, holds the pattern, and nothing earlier does.
pub proof fn lemma_find_from(s: Seq<char>, p: Seq<char>, from: int)
    requires
        0 <= from,
    ensures
        find_from(s, p, from) matches Some(i) ==> from <= i && occurs_at(s, p, i) && forall|
            k: int,
        |
            from <= k < i ==> !occurs_at(s, p, k),
        find_from(s, p, from) is None ==> forall|k: int| from <= k ==> !occurs_at(s, p, k),
    decreases s.len() + 1 - from,
{
    if from + p.len() <= s.len() && !occurs_at(s, p, from) {
        lemma_find_from(s, p, from + 1);
    }
}

/// The first position at or after `from` where `p` occurs in `v`.
pub fn find_chars_from(v: &[char], p: &[char], from: usize) -> (r: Option<usize>)
    ensures
        r matches Some(i) ==> find_from(v@, p@, from as int) == Some(i as int),
        r is None ==> find_from(v@, p@, from as int) is None,
{
    let mut i: usize = from;
    loop
        invariant
            from <= i,
            find_from(v@, p@, from as int) == find_from(v@, p@, i as int),
        decreases v.len() + 1 - i,
    {
        if i > v.len() || p.len() > v.len() - i {
            return None;
        }
        if matches_at(v, p, i) {
            return Some(i);
        }
        if i == v.len() {
            assert(find_from(v@, p@, i + 1) is None);
            return None;
        }
        i = i + 1;
    }
}

/// The first position where `p` occurs in `v`.
pub fn find_chars(v: &[char], p: &[char]) -> (r: Option<usize>)
    ensures
        r matches Some(i) ==> find_first(v@, p@) == Some(i as int),
        r is None ==> find_first(v@, p@) is None,
{
    find_chars_from(v, p, 0)
}

/// The pieces of `s` between occurrences of `sep` (`str::split` with a character).
pub open spec fn split_on(s: Seq<char>, sep: char) -> Seq<Seq<char>>
    decreases s.len(),
{
    if s.len() == 0 {
        seq![seq![]]
    } else {
        let pieces = split_on(s.drop_last(), sep);
        if s.last() == sep {
            pieces.push(seq![])
        } else {
            pieces.update(pieces.len() - 1, pieces.last().push(s.last()))
        }
    }
}

/// Splitting always gives at least one piece.
pub proof fn lemma_split_nonempty(s: Seq<char>, sep: char)
    ensures
        split_on(s, sep).len() >= 1,
    decreases s.len(),
{
    if s.len() > 0 {
        lemma_split_nonempty(s.drop_last(), sep);
    }
}

/// `split_on` on a character vector.
pub fn split_chars(v: &[char], sep: char) -> (r: Vec<Vec<char>>)
    ensures
        r@.len() == split_on(v@, sep).len(),
        forall|k: int| 0 <= k < r@.len() ==> #[trigger] r@[k]@ == split_on(v@, sep)[k],
{
    let mut pieces: Vec<Vec<char>> = Vec::new();
    let mut current: Vec<char> = Vec::new();
    let mut i: usize = 0;
    assert(v@.take(0) =~= Seq::<char>::empty());
    while i < v.len()
        invariant
            i <= v.len(),
            pieces@.len() + 1 == split_on(v@.take(i as int), sep).len(),
            forall|k: int|
                0 <= k < pieces@.len() ==> #[trigger] pieces@[k]@ == split_on(
                    v@.take(i as int),
                    sep,
                )[k],
            current@ == split_on(v@.take(i as int), sep).last(),
        decreases v.len() - i,
    {
        let c = v[i];
        let ghost pre = v@.take(i as int);
        assert(v@.take(i + 1).drop_last() =~= pre);
        proof {
            lemma_split_nonempty(pre, sep);
        }
        if c == sep {
            let done = current;
            pieces.push(done);
            current = Vec::new();
        } else {
            current.push(c);
        }
        i = i + 1;
    }
    assert(v@.take(v.len() as int) =~= v@);
    pieces.push(current);
    pieces
}

/// Every occurrence of `from` in `s`, left to right and without overlap, replaced by `to`
/// (`str::replace`).
pub open spec fn replace_all(s: Seq<char>, from: Seq<char>, to: Seq<char>) -> Seq<char>
    decreases s.len(),
{
    if s.len() == 0 || from.len() == 0 {
        s
    } else if has_prefix(s, from) {
        to + replace_all(s.skip(from.len() as int), from, to)
    } else {
        seq![s[0]] + replace_all(s.drop_first(), from, to)
    }
}

/// `replace_all` on a character vector; `from` must not be empty.
pub fn replace_chars(v: &[char], from: &[char], to: &[char]) -> (r: Vec<char>)
    requires
        from@.len() > 0,
    ensures
        r@ == replace_all(v@, from@, to@),
{
    let mut out: Vec<char> = Vec::new();
    let mut i: usize = 0;
    assert(v@.skip(0) =~= v@);
    while i < v.len()
        invariant
            i <= v.len(),
            from@.len() > 0,
            out@ + replace_all(v@.skip(i as int), from@, to@) == replace_all(v@, from@, to@),
        decreases v.len() - i,
    {
        let ghost rest = v@.skip(i as int);
        if matches_at(v, from, i) {
            assert(rest.take(from@.len() as int) =~= v@.subrange(i as int, i + from@.len()));
            assert(rest.skip(from@.len() as int) =~= v@.skip(i + from@.len()));
            push_chars(&mut out, to);
            i = i + from.len();
        } else {
            proof {
                if from@.len() <= rest.len() {
                    assert(rest.take(from@.len() as int) =~= v@.subrange(
                        i as int,
                        i + from@.len(),
                    ));
                }
            }
            assert(rest.drop_first() =~= v@.skip(i + 1));
            out.push(v[i]);
            i = i + 1;
            assert(out@.drop_last() + (seq![rest[0]] + replace_all(rest.drop_first(), from@, to@))
                =~= out@ + replace_all(v@.skip(i as int), from@, to@));
        }
    }
    assert(v@.skip(v.len() as int) =~= Seq::<char>::empty());
    assert(out@ + Seq::<char>::empty() =~= out@);
    out
}


/// The character of the decimal digit `d`.
pub open spec fn digit_char(d: int) -> char {
    (48 + d) as char
}

/// The decimal digits of `n`.
pub open spec fn decimal(n: nat) -> Seq<char>
    decreases n,
{
    if n < 10 {
        seq![digit_char(n as int)]
    } else {
        decimal(n / 10).push(digit_char((n % 10) as int))
    }
}

/// `s` preceded by zeros up to `width` characters.
pub open spec fn zero_padded(s: Seq<char>, width: nat) -> Seq<char> {
    if s.len() >= width {
        s
    } else {
        Seq::new((width - s.len()) as nat, |_k: int| '0') + s
    }
}

/// The character of the decimal digit `d`.
pub fn digit_to_char(d: u64) -> (r: char)
    requires
        d < 10,
    ensures
        r == digit_char(d as int),
{
    let b: u8 = d as u8;
    (48u8 + b) as char
}

/// The decimal digits of `n`.
pub fn decimal_chars(n: u64) -> (r: Vec<char>)
    ensures
        r@ == decimal(n as nat),
    decreases n,
{
    if n < 10 {
        let mut v: Vec<char> = Vec::new();
        v.push(digit_to_char(n));
        v
    } else {
        let mut v = decimal_chars(n / 10);
        v.push(digit_to_char(n % 10));
        v
    }
}

/// The decimal digits of `n`, zero-padded to `width` characters (`{n:0width$}`).
pub fn padded_decimal_chars(n: u64, width: usize) -> (r: Vec<char>)
    ensures
        r@ == zero_padded(decimal(n as nat), width as nat),
{
    let digits = decimal_chars(n);
    if digits.len() >= width {
        return digits;
    }
    let mut out: Vec<char> = Vec::new();
    let pad = width - digits.len();
    let mut i: usize = 0;
    while i < pad
        invariant
            i <= pad,
            out@ == Seq::new(i as nat, |_k: int| '0'),
        decreases pad - i,
    {
        out.push('0');
        i = i + 1;
        assert(out@ =~= Seq::new(i as nat, |_k: int| '0'));
    }
    push_chars(&mut out, digits.as_slice());
    out
}

/// Whether `c` is an ASCII digit.
pub open spec fn is_digit(c: char) -> bool {
    '0' <= c && c <= '9'
}

/// The value of the ASCII digits `s`, read in base 10.
pub open spec fn digits_value(s: Seq<char>) -> nat
    decreases s.len(),
{
    if s.len() == 0 {
        0
    } else {
        digits_value(s.drop_last()) * 10 + (s.last() as int - 48) as nat
    }
}

/// The number `str::parse::<u32>` reads from `s` when `s` is a non-empty run of ASCII digits.
pub open spec fn parsed_u32(s: Seq<char>) -> Option<u32> {
    if s.len() > 0 && (forall|k: int| 0 <= k < s.len() ==> is_digit(#[trigger] s[k]))
        && digits_value(s) <= u32::MAX {
        Some(digits_value(s) as u32)
    } else {
        None
    }
}

/// Reads a non-empty run of ASCII digits as a `u32`; `None` when `v` holds another
/// character, is empty, or names a number above `u32::MAX`.
pub fn parse_digits_u32(v: &[char]) -> (r: Option<u32>)
    ensures
        r == parsed_u32(v@),
{
    if v.len() == 0 {
        return None;
    }
    let mut value: u64 = 0;
    let mut i: usize = 0;
    let mut overflow = false;
    while i < v.len()
        invariant
            i <= v.len(),
            forall|k: int| 0 <= k < i ==> is_digit(#[trigger] v@[k]),
            !overflow ==> value == digits_value(v@.take(i as int)),
            !overflow ==> value <= u32::MAX,
            overflow ==> digits_value(v@.take(i as int)) > u32::MAX,
        decreases v.len() - i,
    {
        let c = v[i];
        if !('0' <= c && c <= '9') {
            assert(!is_digit(v@[i as int]));
            return None;
        }
        let ghost pre = v@.take(i as int);
        assert(v@.take(i + 1).drop_last() =~= pre);
        assert(v@.take(i + 1).last() == c);
        let d: u64 = (c as u32 - 48) as u64;
        if !overflow {
            assert(value * 10 + d <= 4294967295 * 10 + 9) by (nonlinear_arith)
                requires
                    value <= 4294967295,
                    d <= 9,
            ;
            value = value * 10 + d;
            if value > 4294967295u64 {
                overflow = true;
            }
        } else {
            assert(digits_value(pre) * 10 + d >= digits_value(pre)) by (nonlinear_arith)
                requires
                    d >= 0,
            ;
        }
        i = i + 1;
    }
    assert(v@.take(v.len() as int) =~= v@);
    if overflow {
        None
    } else {
        Some(value as u32)
    }
}

/// `str::to_lowercase`: the Unicode lowercase mapping of a text.
pub uninterp spec fn unicode_lowercase(s: Seq<char>) -> Seq<char>;

/// Calls `str::to_lowercase`, which maps every character to its Unicode lowercase form.
/// The mapping takes Unicode tables to state; the result is named `unicode_lowercase`.
#[verifier::external_body]
pub(crate) fn to_lowercase(value: &str) -> (r: String)
    ensures
        r@ == unicode_lowercase(value@),
{
    value.to_lowercase()
}

/// The ASCII lowercase of `c` (`char::to_ascii_lowercase`).
pub open spec fn ascii_lower(c: char) -> char {
    if 'A' <= c && c <= 'Z' {
        (c as int + 32) as char
    } else {
        c
    }
}

/// The ASCII lowercase of `c`.
pub fn ascii_lower_char(c: char) -> (r: char)
    ensures
        r == ascii_lower(c),
{
    if 'A' <= c && c <= 'Z' {
        let b: u8 = c as u8;
        (b + 32) as char
    } else {
        c
    }
}

/// `s` with ASCII uppercase letters lowered.
pub open spec fn ascii_lowered(s: Seq<char>) -> Seq<char> {
    s.map_values(|c: char| ascii_lower(c))
}

/// `ascii_lowered` on a character vector.
pub fn ascii_lower_chars(v: &[char]) -> (r: Vec<char>)
    ensures
        r@ == ascii_lowered(v@),
{
    let mut out: Vec<char> = Vec::new();
    let mut i: usize = 0;
    while i < v.len()
        invariant
            i <= v.len(),
            out@ == ascii_lowered(v@.take(i as int)),
        decreases v.len() - i,
    {
        out.push(ascii_lower_char(v[i]));
        i = i + 1;
        assert(out@ =~= ascii_lowered(v@.take(i as int)));
    }
    assert(v@.take(v.len() as int) =~= v@);
    out
}


/// Trimming never makes a text longer.
pub proof fn lemma_trim_len(s: Seq<char>)
    ensures
        trim_start(s).len() <= s.len(),
        trim_end(s).len() <= s.len(),
        trimmed(s).len() <= s.len(),
    decreases s.len(),
{
    if s.len() > 0 {
        lemma_trim_len(s.drop_first());
        lemma_trim_len(s.drop_last());
    }
    lemma_trim_len_end(trim_start(s));
}

proof fn lemma_trim_len_end(s: Seq<char>)
    ensures
        trim_end(s).len() <= s.len(),
    decreases s.len(),
{
    if s.len() > 0 {
        lemma_trim_len_end(s.drop_last());
    }
}

/// The position of the last occurrence of `c` in `s`, if any.
pub open spec fn last_index_of(s: Seq<char>, c: char) -> Option<int>
    decreases s.len(),
{
    if s.len() == 0 {
        None
    } else if s.last() == c {
        Some(s.len() - 1)
    } else {
        last_index_of(s.drop_last(), c)
    }
}

/// A found last position lies in range and holds `c`.
pub proof fn lemma_last_index_of(s: Seq<char>, c: char)
    ensures
        last_index_of(s, c) matches Some(i) ==> 0 <= i < s.len() && s[i] == c,
    decreases s.len(),
{
    if s.len() > 0 && s.last() != c {
        lemma_last_index_of(s.drop_last(), c);
    }
}

/// The position of the last occurrence of `c` in `v`.
pub fn last_index_of_char(v: &[char], c: char) -> (r: Option<usize>)
    ensures
        r matches Some(i) ==> last_index_of(v@, c) == Some(i as int),
        r is None ==> last_index_of(v@, c) is None,
{
    let mut i: usize = v.len();
    assert(v@.take(v.len() as int) =~= v@);
    while i > 0
        invariant
            i <= v.len(),
            last_index_of(v@, c) == last_index_of(v@.take(i as int), c),
        decreases i,
    {
        assert(v@.take(i as int).last() == v@[i - 1]);
        if v[i - 1] == c {
            return Some(i - 1);
        }
        assert(v@.take(i as int).drop_last() =~= v@.take(i - 1));
        i = i - 1;
    }
    None
}

/// The characters of `v` from `start` to `end`.
pub fn slice_chars(v: &[char], start: usize, end: usize) -> (r: Vec<char>)
    requires
        start <= end <= v@.len(),
    ensures
        r@ == v@.subrange(start as int, end as int),
{
    let mut out: Vec<char> = Vec::new();
    let mut k: usize = start;
    while k < end
        invariant
            start <= k <= end,
            end <= v.len(),
            out@ == v@.subrange(start as int, k as int),
        decreases end - k,
    {
        out.push(v[k]);
        k = k + 1;
        assert(out@ =~= v@.subrange(start as int, k as int));
    }
    out
}


proof fn lemma_trim_start_shape(s: Seq<char>)
    ensures
        trim_start(s).len() == 0 || !is_ws(trim_start(s)[0]),
        trim_start(s) == s.skip(s.len() - trim_start(s).len()),
    decreases s.len(),
{
    lemma_trim_len(s);
    lemma_trim_len(s.drop_first());
    if s.len() > 0 && is_ws(s[0]) {
        lemma_trim_start_shape(s.drop_first());
        assert(trim_start(s) == trim_start(s.drop_first()));
        assert(s.drop_first().skip(s.drop_first().len() - trim_start(s).len()) =~= s.skip(
            s.len() - trim_start(s).len(),
        ));
    } else {
        assert(s.skip(0) =~= s);
    }
}

proof fn lemma_trim_end_shape(s: Seq<char>)
    ensures
        trim_end(s).len() == 0 || !is_ws(trim_end(s).last()),
        trim_end(s) == s.take(trim_end(s).len() as int),
        trim_end(trim_end(s)) == trim_end(s),
    decreases s.len(),
{
    lemma_trim_len(s);
    lemma_trim_len(s.drop_last());
    if s.len() > 0 && is_ws(s.last()) {
        lemma_trim_end_shape(s.drop_last());
        assert(trim_end(s) == trim_end(s.drop_last()));
        assert(s.drop_last().take(trim_end(s).len() as int) =~= s.take(trim_end(s).len() as int));
    } else {
        assert(s.take(s.len() as int) =~= s);
    }
}

/// Trimming a trimmed text changes nothing.
pub proof fn lemma_trim_idempotent(s: Seq<char>)
    ensures
        trimmed(trimmed(s)) == trimmed(s),
{
    let a = trim_start(s);
    lemma_trim_start_shape(s);
    lemma_trim_end_shape(a);
    let b = trim_end(a);
    lemma_trim_len(a);
    if b.len() > 0 {
        assert(b == a.take(b.len() as int));
        assert(b[0] == a.take(b.len() as int)[0]);
        assert(b[0] == a[0]);
    }
    assert(trim_start(b) == b);
}


/// The character sequences of a vector of character vectors.
pub open spec fn char_views(v: Seq<Vec<char>>) -> Seq<Seq<char>> {
    v.map_values(|p: Vec<char>| p@)
}

/// The character sequences of a vector of strings.
pub open spec fn string_views(v: Seq<String>) -> Seq<Seq<char>> {
    v.map_values(|p: String| p@)
}

/// `parts` joined with `sep`.
pub fn join_chars(parts: &Vec<Vec<char>>, sep: &[char]) -> (r: Vec<char>)
    ensures
        r@ == join_with(char_views(parts@), sep@),
{
    let mut out: Vec<char> = Vec::new();
    let mut i: usize = 0;
    while i < parts.len()
        invariant
            i <= parts@.len(),
            out@ == join_with(char_views(parts@.take(i as int)), sep@),
        decreases parts@.len() - i,
    {
        let ghost pre = char_views(parts@.take(i as int));
        assert(char_views(parts@.take(i + 1)) =~= pre.push(parts@[i as int]@));
        if i > 0 {
            proof {
                lemma_join_push(pre, sep@, parts@[i as int]@);
            }
            push_chars(&mut out, sep);
        } else {
            assert(pre.push(parts@[i as int]@) =~= seq![parts@[i as int]@]);
        }
        push_chars(&mut out, parts[i].as_slice());
        i = i + 1;
    }
    assert(parts@.take(parts@.len() as int) =~= parts@);
    out
}

/// `parts` joined with `sep`.
pub fn join_strings(parts: &Vec<String>, sep: &str) -> (r: String)
    ensures
        r@ == join_with(string_views(parts@), sep@),
{
    let mut cs: Vec<Vec<char>> = Vec::new();
    let mut i: usize = 0;
    while i < parts.len()
        invariant
            i <= parts@.len(),
            cs@.len() == i,
            forall|j: int| 0 <= j < i ==> #[trigger] cs@[j]@ == parts@[j]@,
        decreases parts@.len() - i,
    {
        cs.push(chars_of(parts[i].as_str()));
        i = i + 1;
    }
    assert(char_views(cs@) =~= string_views(parts@));
    let sepc = chars_of(sep);
    let out = join_chars(&cs, sepc.as_slice());
    string_of(out.as_slice())
}


/// Words hold no whitespace.
pub proof fn lemma_words_no_ws(s: Seq<char>)
    ensures
        forall|k: int, j: int|
            0 <= k < words(s).len() && 0 <= j < words(s)[k].len() ==> !is_ws(
                #[trigger] words(s)[k][j],
            ),
    decreases s.len(),
{
    if s.len() > 0 {
        lemma_words_no_ws(s.drop_last());
        lemma_words_shape(s.drop_last());
        let w = words(s.drop_last());
        let c = s.last();
        if !is_ws(c) {
            if s.len() >= 2 && !is_ws(s[s.len() - 2]) {
                assert forall|k: int, j: int|
                    0 <= k < words(s).len() && 0 <= j < words(s)[k].len() implies !is_ws(
                    #[trigger] words(s)[k][j],
                ) by {
                    if k == w.len() - 1 && j == w.last().len() {
                    } else if k == w.len() - 1 {
                        assert(words(s)[k][j] == w[k][j]);
                    } else {
                        assert(words(s)[k] == w[k]);
                    }
                }
            } else {
                assert forall|k: int, j: int|
                    0 <= k < words(s).len() && 0 <= j < words(s)[k].len() implies !is_ws(
                    #[trigger] words(s)[k][j],
                ) by {
                    if k < w.len() {
                        assert(words(s)[k] == w[k]);
                    }
                }
            }
        }
    }
}

/// A join of non-empty parts starts with the first character of the first part.
pub proof fn lemma_join_first(parts: Seq<Seq<char>>, sep: Seq<char>)
    requires
        parts.len() > 0,
        forall|k: int| 0 <= k < parts.len() ==> #[trigger] parts[k].len() > 0,
    ensures
        join_with(parts, sep).len() > 0,
        join_with(parts, sep)[0] == parts[0][0],
    decreases parts.len(),
{
    if parts.len() > 1 {
        lemma_join_first(parts.drop_last(), sep);
        assert(parts.drop_last()[0] == parts[0]);
    }
}

/// A non-empty normalized text starts with a character that is not whitespace.
pub proof fn lemma_normalized_starts_solid(s: Seq<char>)
    ensures
        normalized(s).len() > 0 ==> !is_ws(normalized(s)[0]),
{
    lemma_words_shape(s);
    lemma_words_no_ws(s);
    lemma_join_empty(words(s), seq![' ']);
    if words(s).len() > 0 {
        lemma_join_first(words(s), seq![' ']);
        assert(!is_ws(words(s)[0][0]));
    }
}

/// Trimming keeps a text that holds a non-whitespace character non-empty.
pub proof fn lemma_trim_keeps_solid(s: Seq<char>, k: int)
    requires
        0 <= k < s.len(),
        !is_ws(s[k]),
    ensures
        trimmed(s).len() > 0,
    decreases s.len(),
{
    lemma_trim_start_keeps(s, k);
    let t = trim_start(s);
    let j = k - (s.len() - t.len());
    lemma_trim_end_keeps(t, j);
}

proof fn lemma_trim_start_keeps(s: Seq<char>, k: int)
    requires
        0 <= k < s.len(),
        !is_ws(s[k]),
    ensures
        s.len() - trim_start(s).len() <= k,
        trim_start(s)[k - (s.len() - trim_start(s).len())] == s[k],
        trim_start(s).len() <= s.len(),
    decreases s.len(),
{
    lemma_trim_len(s);
    if s.len() > 0 && is_ws(s[0]) {
        assert(k > 0);
        lemma_trim_start_keeps(s.drop_first(), k - 1);
    }
}

proof fn lemma_trim_end_keeps(s: Seq<char>, k: int)
    requires
        0 <= k < s.len(),
        !is_ws(s[k]),
    ensures
        trim_end(s).len() > k,
    decreases s.len(),
{
    if s.len() > 0 && is_ws(s.last()) {
        assert(k < s.len() - 1);
        lemma_trim_end_keeps(s.drop_last(), k);
    }
}

} // verus!
