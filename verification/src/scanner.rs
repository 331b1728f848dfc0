//! Folder scanning rules: which entries are visited, which files are supported, the limits
//! on a scan, the content hash of a file, and the order of the scanned files.
use vstd::prelude::*;

use crate::text::ascii_lower;
use crate::text::ascii_lower_char;
use crate::text::chars_eq;
use crate::text::chars_of;
use crate::text::decimal;
use crate::text::decimal_chars;
use crate::text::join_strings;
use crate::text::join_with;
use crate::text::push_chars;
use crate::text::push_str;
use crate::text::string_of;
use crate::text::string_views;
use crate::text::to_lowercase;
use crate::text::unicode_lowercase;
use crate::models::ScannedFile;

verus! {

/// The file extensions a scan picks up.
pub open spec fn supported_extensions() -> Seq<Seq<char>> {
    seq![
        "pdf"@,
        "docx"@,
        "xlsx"@,
        "md"@,
        "txt"@,
        "png"@,
        "jpg"@,
        "jpeg"@,
        "bmp"@,
        "tif"@,
        "tiff"@,
        "webp"@,
    ]
}

/// The folder names a scan never enters (compared ignoring ASCII case).
pub open spec fn skipped_dir_names() -> Seq<Seq<char>> {
    seq![".git"@, ".idea"@, ".vscode"@, "node_modules"@, "target"@, "dist"@, ".venv"@]
}

/// The supported extensions, as texts.
fn supported_extension_list() -> (r: Vec<Vec<char>>)
    ensures
        r@.len() == supported_extensions().len(),
        forall|k: int| 0 <= k < r@.len() ==> #[trigger] r@[k]@ == supported_extensions()[k],
{
    let mut v: Vec<Vec<char>> = Vec::new();
    v.push(chars_of("pdf"));
    v.push(chars_of("docx"));
    v.push(chars_of("xlsx"));
    v.push(chars_of("md"));
    v.push(chars_of("txt"));
    v.push(chars_of("png"));
    v.push(chars_of("jpg"));
    v.push(chars_of("jpeg"));
    v.push(chars_of("bmp"));
    v.push(chars_of("tif"));
    v.push(chars_of("tiff"));
    v.push(chars_of("webp"));
    v
}

/// The skipped folder names, as texts.
fn skipped_dir_name_list() -> (r: Vec<Vec<char>>)
    ensures
        r@.len() == skipped_dir_names().len(),
        forall|k: int| 0 <= k < r@.len() ==> #[trigger] r@[k]@ == skipped_dir_names()[k],
{
    let mut v: Vec<Vec<char>> = Vec::new();
    v.push(chars_of(".git"));
    v.push(chars_of(".idea"));
    v.push(chars_of(".vscode"));
    v.push(chars_of("node_modules"));
    v.push(chars_of("target"));
    v.push(chars_of("dist"));
    v.push(chars_of(".venv"));
    v
}

/// Whether two texts are equal ignoring ASCII case (`str::eq_ignore_ascii_case`).
pub open spec fn eq_ignore_ascii_case(a: Seq<char>, b: Seq<char>) -> bool {
    a.len() == b.len() && forall|i: int| 0 <= i < a.len() ==> ascii_lower(#[trigger] a[i]) == ascii_lower(b[i])
}

/// Whether two character vectors are equal ignoring ASCII case.
fn chars_eq_ignore_ascii_case(a: &[char], b: &[char]) -> (r: bool)
    ensures
        r == eq_ignore_ascii_case(a@, b@),
{
    if a.len() != b.len() {
        return false;
    }
    let mut i: usize = 0;
    while i < a.len()
        invariant
            i <= a.len(),
            a.len() == b.len(),
            forall|k: int| 0 <= k < i ==> ascii_lower(#[trigger] a@[k]) == ascii_lower(b@[k]),
        decreases a.len() - i,
    {
        if ascii_lower_char(a[i]) != ascii_lower_char(b[i]) {
            return false;
        }
        i = i + 1;
    }
    true
}

/// Whether a scan enters an entry: the root always; else nothing whose name starts with
/// `.`, and no folder named like a skipped one.
pub open spec fn visits(depth: nat, name: Seq<char>, is_dir: bool) -> bool {
    if depth == 0 {
        true
    } else if name.len() > 0 && name[0] == '.' {
        false
    } else if is_dir {
        !exists|k: int| 0 <= k < skipped_dir_names().len() && eq_ignore_ascii_case(name, #[trigger] skipped_dir_names()[k])
    } else {
        true
    }
}

/// Whether a scan enters the entry at `depth` below the root, named `name`.
pub fn should_visit(depth: usize, name: &str, is_dir: bool) -> (r: bool)
    ensures
        r == visits(depth as nat, name@, is_dir),
{
    if depth == 0 {
        return true;
    }
    let n = chars_of(name);
    if n.len() > 0 && n[0] == '.' {
        return false;
    }
    if is_dir {
        let skipped = skipped_dir_name_list();
        let mut k: usize = 0;
        while k < skipped.len()
            invariant
                k <= skipped.len(),
                n@ == name@,
                depth != 0,
                is_dir,
                !(name@.len() > 0 && name@[0] == '.'),
                skipped@.len() == skipped_dir_names().len(),
                forall|j: int| 0 <= j < skipped@.len() ==> #[trigger] skipped@[j]@ == skipped_dir_names()[j],
                forall|j: int| 0 <= j < k ==> !eq_ignore_ascii_case(name@, #[trigger] skipped_dir_names()[j]),
            decreases skipped.len() - k,
        {
            if chars_eq_ignore_ascii_case(n.as_slice(), skipped[k].as_slice()) {
                assert(eq_ignore_ascii_case(name@, skipped_dir_names()[k as int]));
                return false;
            }
            k = k + 1;
        }
        return true;
    }
    true
}

/// The extension a scanned file is recorded with: the lowercased extension, when supported.
pub open spec fn supported_extension_of(extension: Option<Seq<char>>) -> Option<Seq<char>> {
    match extension {
        None => None,
        Some(e) => if supported_extensions().contains(unicode_lowercase(e)) {
            Some(unicode_lowercase(e))
        } else {
            None
        },
    }
}

/// The view of an optional text.
pub open spec fn opt_text(value: Option<&str>) -> Option<Seq<char>> {
    match value {
        Some(v) => Some(v@),
        None => None,
    }
}

/// The lowercased extension of a file, when a scan supports it.
pub fn supported_extension(extension: Option<&str>) -> (r: Option<String>)
    ensures
        r matches Some(e) ==> supported_extension_of(opt_text(extension)) == Some(e@),
        r is None ==> supported_extension_of(opt_text(extension)) is None,
{
    match extension {
        None => None,
        Some(e) => {
            let lower = to_lowercase(e);
            let l = chars_of(lower.as_str());
            let list = supported_extension_list();
            let mut k: usize = 0;
            while k < list.len()
                invariant
                    k <= list.len(),
                    l@ == unicode_lowercase(e@),
                    lower@ == unicode_lowercase(e@),
                    opt_text(extension) == Some(e@),
                    list@.len() == supported_extensions().len(),
                    forall|j: int| 0 <= j < list@.len() ==> #[trigger] list@[j]@ == supported_extensions()[j],
                    forall|j: int| 0 <= j < k ==> supported_extensions()[j] != unicode_lowercase(e@),
                decreases list.len() - k,
            {
                if chars_eq(l.as_slice(), list[k].as_slice()) {
                    assert(supported_extensions()[k as int] == unicode_lowercase(e@));
                    assert(supported_extensions().contains(unicode_lowercase(e@)));
                    return Some(lower);
                }
                k = k + 1;
            }
            proof {
                if supported_extensions().contains(unicode_lowercase(e@)) {
                    let j = choose|j: int| 0 <= j < supported_extensions().len() && supported_extensions()[j] == unicode_lowercase(e@);
                    assert(supported_extensions()[j] != unicode_lowercase(e@));
                }
            }
            None
        },
    }
}

/// The path recorded for a scanned file: its components below the root joined with `\`.
pub fn normalized_relative_path(components: &Vec<String>) -> (r: String)
    ensures
        r@ == join_with(string_views(components@), "\\"@),
{
    join_strings(components, "\\")
}

/// How many files, and how many bytes in all, a scan may pick up.
#[derive(Debug, Clone, Copy)]
pub struct ScanLimits {
    pub max_files: usize,
    pub max_total_bytes: u64,
}

/// The default number of files a scan may pick up.
pub const DEFAULT_MAX_SCANNED_FILES: usize = 10000;

/// The default number of bytes a scan may pick up (10 GiB).
pub const DEFAULT_MAX_SCANNED_TOTAL_BYTES: u64 = 10737418240;

impl ScanLimits {
    /// The default limits: ten thousand files and 10 GiB.
    pub fn default_limits() -> (r: ScanLimits)
        ensures
            r.max_files == 10000,
            r.max_total_bytes == 10 * 1024 * 1024 * 1024,
    {
        ScanLimits { max_files: DEFAULT_MAX_SCANNED_FILES, max_total_bytes: DEFAULT_MAX_SCANNED_TOTAL_BYTES }
    }
}

/// A byte count as shown in a limit message: whole MiB when at least one, else bytes.
pub open spec fn byte_limit_text(bytes: nat) -> Seq<char> {
    if bytes >= 1024 * 1024 {
        decimal(bytes / 1024 / 1024) + " MB"@
    } else {
        decimal(bytes) + " 字节"@
    }
}

/// A byte count as shown in a limit message.
pub fn format_byte_limit(bytes: u64) -> (r: String)
    ensures
        r@ == byte_limit_text(bytes as nat),
{
    let mut out: Vec<char> = Vec::new();
    if bytes >= 1024 * 1024 {
        push_chars(&mut out, decimal_chars(bytes / 1024 / 1024).as_slice());
        push_str(&mut out, " MB");
    } else {
        push_chars(&mut out, decimal_chars(bytes).as_slice());
        push_str(&mut out, " 字节");
    }
    assert(out@ =~= byte_limit_text(bytes as nat));
    string_of(out.as_slice())
}

/// The message of a scan refused for too many files.
pub open spec fn too_many_files_message(max_files: nat) -> Seq<char> {
    "SCAN_TOO_MANY_FILES：扫描文件数量超过 "@ + decimal(max_files) + " 个上限，请拆分目录后再扫描"@
}

/// The message of a scan refused for too many bytes.
pub open spec fn too_many_bytes_message(max_total_bytes: nat) -> Seq<char> {
    "SCAN_TOTAL_BYTES_TOO_LARGE：扫描文件总大小超过 "@ + byte_limit_text(max_total_bytes)
        + " 上限，请缩小目录范围后再扫描"@
}

/// What a scan has picked up so far.
#[derive(Debug, Clone, Copy)]
pub struct ScanTally {
    pub files: usize,
    pub total_bytes: u64,
}

/// `a + b`, or `u64::MAX` when that does not fit.
pub open spec fn saturating_sum(a: u64, b: u64) -> u64 {
    if a + b <= u64::MAX {
        (a + b) as u64
    } else {
        u64::MAX
    }
}

impl ScanTally {
    /// Nothing picked up yet.
    pub fn new() -> (r: ScanTally)
        ensures
            r.files == 0,
            r.total_bytes == 0,
    {
        ScanTally { files: 0, total_bytes: 0 }
    }

    /// Counts one more supported file of `size` bytes, unless that would go over a limit:
    /// the file count is checked first, then the byte total (which saturates).
    pub fn admit_file(&mut self, limits: &ScanLimits, size: u64) -> (r: Result<(), String>)
        ensures
            old(self).files >= limits.max_files ==> (r matches Err(m) && m@ == too_many_files_message(
                limits.max_files as nat,
            )) && *final(self) == *old(self),
            old(self).files < limits.max_files && saturating_sum(old(self).total_bytes, size)
                > limits.max_total_bytes ==> (r matches Err(m) && m@ == too_many_bytes_message(
                limits.max_total_bytes as nat,
            )) && *final(self) == *old(self),
            old(self).files < limits.max_files && saturating_sum(old(self).total_bytes, size)
                <= limits.max_total_bytes ==> r is Ok && final(self).files == old(self).files + 1
                && final(self).total_bytes == saturating_sum(old(self).total_bytes, size),
    {
        if self.files >= limits.max_files {
            let mut out: Vec<char> = Vec::new();
            push_str(&mut out, "SCAN_TOO_MANY_FILES：扫描文件数量超过 ");
            push_chars(&mut out, decimal_chars(limits.max_files as u64).as_slice());
            push_str(&mut out, " 个上限，请拆分目录后再扫描");
            assert(out@ =~= too_many_files_message(limits.max_files as nat));
            return Err(string_of(out.as_slice()));
        }
        let next = self.total_bytes.saturating_add(size);
        if next > limits.max_total_bytes {
            let mut out: Vec<char> = Vec::new();
            push_str(&mut out, "SCAN_TOTAL_BYTES_TOO_LARGE：扫描文件总大小超过 ");
            let limit = format_byte_limit(limits.max_total_bytes);
            push_str(&mut out, limit.as_str());
            push_str(&mut out, " 上限，请缩小目录范围后再扫描");
            assert(out@ =~= too_many_bytes_message(limits.max_total_bytes as nat));
            return Err(string_of(out.as_slice()));
        }
        self.files = self.files + 1;
        self.total_bytes = next;
        Ok(())
    }
}

/// Progress reported while scanning.
#[derive(Debug, Clone)]
pub struct ScanProgress {
    pub scanned_files: u32,
    pub current_path: String,
}

/// `blake3::Hasher`, the incremental BLAKE3 hasher.
#[verifier::external_type_specification]
#[verifier::external_body]
pub struct ExBlake3Hasher(blake3::Hasher);

/// The bytes a BLAKE3 hasher has been fed so far.
pub uninterp spec fn hashed_input(hasher: blake3::Hasher) -> Seq<u8>;

/// The BLAKE3 hash of `input`, as 64 lowercase hexadecimal digits
/// (`blake3::Hasher::finalize` followed by `Hash::to_hex`).
pub uninterp spec fn blake3_hex(input: Seq<u8>) -> Seq<char>;

/// Calls `blake3::Hasher::new`: a hasher that has been fed nothing.
#[verifier::external_body]
fn hasher_new() -> (r: blake3::Hasher)
    ensures
        hashed_input(r) == Seq::<u8>::empty(),
{
    blake3::Hasher::new()
}

/// Calls `blake3::Hasher::update`, which feeds `input` after what the hasher was fed before
/// (hashing in pieces gives the hash of the concatenation).
#[verifier::external_body]
fn hasher_update(hasher: &mut blake3::Hasher, input: &[u8])
    ensures
        hashed_input(*final(hasher)) == hashed_input(*old(hasher)) + input@,
{
    hasher.update(input);
}

/// Calls `blake3::Hasher::finalize` and `Hash::to_hex`: the hash of all the input, written
/// as 64 lowercase hexadecimal digits.
#[verifier::external_body]
fn hasher_hex(hasher: &blake3::Hasher) -> (r: String)
    ensures
        r@ == blake3_hex(hashed_input(*hasher)),
        r@.len() == 64,
        forall|i: int| 0 <= i < r@.len() ==> ('0' <= #[trigger] r@[i] <= '9' || 'a' <= r@[i] <= 'f'),
{
    hasher.finalize().to_hex().to_string()
}

/// The content hash of a file, fed in pieces as the file is read.
pub struct ContentHasher {
    hasher: blake3::Hasher,
}

impl ContentHasher {
    /// The bytes fed so far.
    pub closed spec fn input(&self) -> Seq<u8> {
        hashed_input(self.hasher)
    }

    /// A hasher that has been fed nothing.
    pub fn new() -> (r: ContentHasher)
        ensures
            r.input() == Seq::<u8>::empty(),
    {
        ContentHasher { hasher: hasher_new() }
    }

    /// Feeds the next piece of the file.
    pub fn update(&mut self, chunk: &[u8])
        ensures
            final(self).input() == old(self).input() + chunk@,
    {
        hasher_update(&mut self.hasher, chunk);
    }

    /// The content hash of everything fed: 64 lowercase hexadecimal digits.
    pub fn finish(&self) -> (r: String)
        ensures
            r@ == blake3_hex(self.input()),
            r@.len() == 64,
    {
        hasher_hex(&self.hasher)
    }
}

/// The content hash of `bytes`.
pub fn content_hash(bytes: &[u8]) -> (r: String)
    ensures
        r@ == blake3_hex(bytes@),
        r@.len() == 64,
{
    let mut hasher = ContentHasher::new();
    hasher.update(bytes);
    assert(Seq::<u8>::empty() + bytes@ =~= bytes@);
    hasher.finish()
}

/// Whether `a` comes no later than `b` in character order (`str` comparison).
pub open spec fn lex_le(a: Seq<char>, b: Seq<char>) -> bool
    decreases a.len(),
{
    if a.len() == 0 {
        true
    } else if b.len() == 0 {
        false
    } else if a[0] != b[0] {
        a[0] < b[0]
    } else {
        lex_le(a.drop_first(), b.drop_first())
    }
}

/// Whether `a` comes no later than `b` in character order.
fn chars_le(a: &[char], b: &[char]) -> (r: bool)
    ensures
        r == lex_le(a@, b@),
{
    let mut i: usize = 0;
    assert(a@.skip(0) =~= a@);
    assert(b@.skip(0) =~= b@);
    while i < a.len() && i < b.len()
        invariant
            i <= a.len(),
            i <= b.len(),
            forall|k: int| 0 <= k < i ==> a@[k] == b@[k],
            lex_le(a@, b@) == lex_le(a@.skip(i as int), b@.skip(i as int)),
        decreases a.len() - i,
    {
        assert(a@.skip(i as int)[0] == a@[i as int]);
        assert(b@.skip(i as int)[0] == b@[i as int]);
        if a[i] != b[i] {
            return a[i] < b[i];
        }
        assert(a@.skip(i as int).drop_first() =~= a@.skip(i + 1));
        assert(b@.skip(i as int).drop_first() =~= b@.skip(i + 1));
        i = i + 1;
    }
    a.len() <= b.len()
}

/// The key scanned files are ordered by: the lowercased relative path.
pub open spec fn path_key(file: ScannedFile) -> Seq<char> {
    unicode_lowercase(file.relative_path@)
}

/// Where `file` goes in `sorted`: after the last file whose key is not above its own.
pub open spec fn insert_position(sorted: Seq<ScannedFile>, file: ScannedFile) -> int
    decreases sorted.len(),
{
    if sorted.len() == 0 {
        0
    } else if lex_le(path_key(sorted.last()), path_key(file)) {
        sorted.len() as int
    } else {
        insert_position(sorted.drop_last(), file)
    }
}

/// The scanned files ordered by lowercased relative path, files with equal keys in the order
/// they were found.
pub open spec fn sorted_by_path(files: Seq<ScannedFile>) -> Seq<ScannedFile>
    decreases files.len(),
{
    if files.len() == 0 {
        seq![]
    } else {
        let sorted = sorted_by_path(files.drop_last());
        sorted.insert(insert_position(sorted, files.last()), files.last())
    }
}

/// The insert position lies within the sequence.
pub proof fn lemma_insert_position_range(sorted: Seq<ScannedFile>, file: ScannedFile)
    ensures
        0 <= insert_position(sorted, file) <= sorted.len(),
    decreases sorted.len(),
{
    if sorted.len() > 0 {
        lemma_insert_position_range(sorted.drop_last(), file);
    }
}

/// Orders scanned files by lowercased relative path; files with equal keys keep the order
/// in which they were found.
pub fn sort_scanned_files(files: Vec<ScannedFile>) -> (r: Vec<ScannedFile>)
    ensures
        r@ == sorted_by_path(files@),
{
    let ghost all = files@;
    let mut rest = files;
    let mut sorted: Vec<ScannedFile> = Vec::new();
    let mut keys: Vec<Vec<char>> = Vec::new();
    let mut done: usize = 0;
    let total = rest.len();
    assert(all.take(0) =~= Seq::<ScannedFile>::empty());
    while rest.len() > 0
        invariant
            done + rest@.len() == all.len(),
            all.len() == total,
            rest@ == all.skip(done as int),
            sorted@ == sorted_by_path(all.take(done as int)),
            keys@.len() == sorted@.len(),
            forall|k: int| 0 <= k < keys@.len() ==> #[trigger] keys@[k]@ == path_key(sorted@[k]),
        decreases rest@.len(),
    {
        let file = rest.remove(0);
        assert(file == all[done as int]);
        assert(rest@ =~= all.skip(done + 1));
        let key_text = to_lowercase(file.relative_path.as_str());
        let key = chars_of(key_text.as_str());
        let mut p: usize = sorted.len();
        assert(sorted@.take(p as int) =~= sorted@);
        while p > 0 && !chars_le(keys[p - 1].as_slice(), key.as_slice())
            invariant
                p <= sorted@.len(),
                keys@.len() == sorted@.len(),
                forall|k: int| 0 <= k < keys@.len() ==> #[trigger] keys@[k]@ == path_key(sorted@[k]),
                key@ == path_key(file),
                insert_position(sorted@, file) == insert_position(sorted@.take(p as int), file),
            decreases p,
        {
            assert(sorted@.take(p as int).drop_last() =~= sorted@.take(p - 1));
            assert(sorted@.take(p as int).last() == sorted@[p - 1]);
            p = p - 1;
        }
        if p > 0 {
            assert(sorted@.take(p as int).last() == sorted@[p - 1]);
        }
        let ghost before = sorted@;
        let ghost before_keys = keys@;
        sorted.insert(p, file);
        keys.insert(p, key);
        assert(all.take(done + 1).drop_last() =~= all.take(done as int));
        assert(all.take(done + 1).last() == file);
        assert(sorted@ == before.insert(insert_position(before, file), file));
        assert forall|k: int| 0 <= k < keys@.len() implies #[trigger] keys@[k]@ == path_key(sorted@[k]) by {
            if k < p {
                assert(keys@[k] == before_keys[k]);
            } else if k > p {
                assert(keys@[k] == before_keys[k - 1]);
            }
        }
        done = done + 1;
    }
    assert(all.take(done as int) =~= all);
    sorted
}

/// Character order is total.
pub proof fn lemma_lex_total(a: Seq<char>, b: Seq<char>)
    ensures
        lex_le(a, b) || lex_le(b, a),
    decreases a.len(),
{
    if a.len() > 0 && b.len() > 0 && a[0] == b[0] {
        lemma_lex_total(a.drop_first(), b.drop_first());
    }
}

/// Character order is transitive.
pub proof fn lemma_lex_transitive(a: Seq<char>, b: Seq<char>, c: Seq<char>)
    requires
        lex_le(a, b),
        lex_le(b, c),
    ensures
        lex_le(a, c),
    decreases a.len(),
{
    if a.len() > 0 && b.len() > 0 && c.len() > 0 && a[0] == b[0] && b[0] == c[0] {
        lemma_lex_transitive(a.drop_first(), b.drop_first(), c.drop_first());
    }
}

/// Whether files are in order of their keys.
pub open spec fn ordered_by_path(files: Seq<ScannedFile>) -> bool {
    forall|i: int, j: int| 0 <= i < j < files.len() ==> lex_le(path_key(#[trigger] files[i]), path_key(#[trigger] files[j]))
}

/// Files before the insert position have keys not above the new file's; files from it on
/// have keys above it.
proof fn lemma_insert_position_split(sorted: Seq<ScannedFile>, file: ScannedFile)
    requires
        ordered_by_path(sorted),
    ensures
        forall|i: int| 0 <= i < insert_position(sorted, file) ==> lex_le(path_key(#[trigger] sorted[i]), path_key(file)),
        forall|i: int| insert_position(sorted, file) <= i < sorted.len() ==> !lex_le(path_key(#[trigger] sorted[i]), path_key(file)),
    decreases sorted.len(),
{
    if sorted.len() > 0 {
        let last = sorted.last();
        if lex_le(path_key(last), path_key(file)) {
            assert forall|i: int| 0 <= i < sorted.len() implies lex_le(path_key(#[trigger] sorted[i]), path_key(file)) by {
                if i < sorted.len() - 1 {
                    assert(lex_le(path_key(sorted[i]), path_key(sorted[sorted.len() - 1])));
                    lemma_lex_transitive(path_key(sorted[i]), path_key(last), path_key(file));
                }
            }
        } else {
            let rest = sorted.drop_last();
            assert(ordered_by_path(rest)) by {
                assert forall|i: int, j: int| 0 <= i < j < rest.len() implies lex_le(path_key(#[trigger] rest[i]), path_key(#[trigger] rest[j])) by {
                    assert(rest[i] == sorted[i] && rest[j] == sorted[j]);
                }
            }
            lemma_insert_position_split(rest, file);
            lemma_insert_position_range(rest, file);
            assert forall|i: int| 0 <= i < insert_position(sorted, file) implies lex_le(path_key(#[trigger] sorted[i]), path_key(file)) by {
                assert(sorted[i] == rest[i]);
            }
            assert forall|i: int| insert_position(sorted, file) <= i < sorted.len() implies !lex_le(path_key(#[trigger] sorted[i]), path_key(file)) by {
                if i < rest.len() {
                    assert(sorted[i] == rest[i]);
                }
            }
        }
    }
}

/// Scanned files come out ordered by lowercased relative path, and none is lost or added:
/// the result holds each file as often as the input does.
pub proof fn law_scan_order_sorted_permutation(files: Seq<ScannedFile>)
    ensures
        ordered_by_path(sorted_by_path(files)),
        sorted_by_path(files).to_multiset() == files.to_multiset(),
    decreases files.len(),
{
    broadcast use vstd::seq_lib::to_multiset_insert, vstd::seq_lib::to_multiset_build;

    if files.len() == 0 {
        assert(sorted_by_path(files) =~= files);
    } else {
        let rest = files.drop_last();
        let file = files.last();
        law_scan_order_sorted_permutation(rest);
        let sorted = sorted_by_path(rest);
        let p = insert_position(sorted, file);
        lemma_insert_position_range(sorted, file);
        lemma_insert_position_split(sorted, file);
        let result = sorted.insert(p, file);
        assert(files =~= rest.push(file));
        assert forall|i: int, j: int| 0 <= i < j < result.len() implies lex_le(path_key(#[trigger] result[i]), path_key(#[trigger] result[j])) by {
            if j < p {
                assert(result[i] == sorted[i] && result[j] == sorted[j]);
            } else if j == p {
                assert(result[i] == sorted[i]);
            } else if i < p {
                assert(result[i] == sorted[i] && result[j] == sorted[j - 1]);
                lemma_lex_total(path_key(sorted[j - 1]), path_key(file));
                lemma_lex_transitive(path_key(sorted[i]), path_key(file), path_key(sorted[j - 1]));
            } else if i == p {
                assert(result[j] == sorted[j - 1]);
                lemma_lex_total(path_key(sorted[j - 1]), path_key(file));
            } else {
                assert(result[i] == sorted[i - 1] && result[j] == sorted[j - 1]);
            }
        }
    }
}

/// A scan records exactly the files whose lowercased extension is one of pdf, docx, xlsx, md,
/// txt, png, jpg, jpeg, bmp, tif, tiff and webp, and records it lowercased; a file without an
/// extension is never recorded.
pub proof fn law_scan_takes_exactly_the_listed_extensions(extension: Seq<char>)
    ensures
        supported_extension_of(None) is None,
        supported_extension_of(Some(extension)) is Some <==> {
            let e = unicode_lowercase(extension);
            ||| e == "pdf"@
            ||| e == "docx"@
            ||| e == "xlsx"@
            ||| e == "md"@
            ||| e == "txt"@
            ||| e == "png"@
            ||| e == "jpg"@
            ||| e == "jpeg"@
            ||| e == "bmp"@
            ||| e == "tif"@
            ||| e == "tiff"@
            ||| e == "webp"@
        },
        supported_extension_of(Some(extension)) matches Some(r) ==> r == unicode_lowercase(extension),
{
    let e = unicode_lowercase(extension);
    let list = supported_extensions();
    if list.contains(e) {
        let j = choose|j: int| 0 <= j < list.len() && list[j] == e;
        assert(0 <= j < 12);
    }
    if e == "pdf"@ { assert(list[0] == e); }
    if e == "docx"@ { assert(list[1] == e); }
    if e == "xlsx"@ { assert(list[2] == e); }
    if e == "md"@ { assert(list[3] == e); }
    if e == "txt"@ { assert(list[4] == e); }
    if e == "png"@ { assert(list[5] == e); }
    if e == "jpg"@ { assert(list[6] == e); }
    if e == "jpeg"@ { assert(list[7] == e); }
    if e == "bmp"@ { assert(list[8] == e); }
    if e == "tif"@ { assert(list[9] == e); }
    if e == "tiff"@ { assert(list[10] == e); }
    if e == "webp"@ { assert(list[11] == e); }
}

} // verus!
