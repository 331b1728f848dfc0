//! Runtime configuration: the `.env` file format, the lookup of configuration values, the
//! DeepSeek, OCR and vision settings, and the status shown for them.
use vstd::prelude::*;

use crate::text::chars_eq;
use crate::text::chars_of;
use crate::text::find_chars;
use crate::text::find_first;
use crate::text::lemma_find_from;
use crate::text::push_chars;
use crate::text::push_str;
use crate::text::slice_chars;
use crate::text::split_chars;
use crate::text::split_on;
use crate::text::string_of;
use crate::text::trim_chars;
use crate::text::trimmed;
use crate::models::DeepSeekRuntimeStatus;
use crate::models::OcrRuntimeStatus;
use crate::models::RuntimeStatus;
use crate::models::VisionRuntimeStatus;

verus! {

/// The chat model used when none is configured.
pub open spec fn default_deepseek_model() -> Seq<char> {
    "deepseek-v4-flash"@
}

/// The DeepSeek endpoint used when none is configured.
pub open spec fn default_deepseek_base_url() -> Seq<char> {
    "https://api.deepseek.com"@
}

/// Whether `s` holds nothing but whitespace.
pub open spec fn is_blank(s: Seq<char>) -> bool {
    trimmed(s).len() == 0
}

/// Whether `value` holds nothing but whitespace.
pub fn blank(value: &str) -> (r: bool)
    ensures
        r == is_blank(value@),
{
    let v = chars_of(value);
    trim_chars(v.as_slice()).len() == 0
}

/// Key–value pairs read from a `.env` file or the process environment; a later pair for a
/// key overrides an earlier one.
pub struct LocalEnv {
    entries: Vec<(String, String)>,
}

/// The pairs of `entries`, as character sequences.
pub open spec fn entry_views(entries: Seq<(String, String)>) -> Seq<(Seq<char>, Seq<char>)> {
    entries.map_values(|e: (String, String)| (e.0@, e.1@))
}

/// The value of the last pair for `key`.
pub open spec fn env_lookup(entries: Seq<(Seq<char>, Seq<char>)>, key: Seq<char>) -> Option<Seq<char>>
    decreases entries.len(),
{
    if entries.len() == 0 {
        None
    } else if entries.last().0 == key {
        Some(entries.last().1)
    } else {
        env_lookup(entries.drop_last(), key)
    }
}

impl View for LocalEnv {
    type V = Seq<(Seq<char>, Seq<char>)>;

    closed spec fn view(&self) -> Seq<(Seq<char>, Seq<char>)> {
        entry_views(self.entries@)
    }
}

impl LocalEnv {
    /// No pairs.
    pub fn new() -> (r: LocalEnv)
        ensures
            r@ == Seq::<(Seq<char>, Seq<char>)>::empty(),
    {
        LocalEnv { entries: Vec::new() }
    }

    /// Sets `key` to `value`.
    pub fn insert(&mut self, key: String, value: String)
        ensures
            final(self)@ == old(self)@.push((key@, value@)),
    {
        let ghost before = self.entries@;
        self.entries.push((key, value));
        assert(entry_views(self.entries@) =~= entry_views(before).push((key@, value@)));
    }

    /// The number of pairs read.
    pub fn len(&self) -> (r: usize)
        ensures
            r == self@.len(),
    {
        self.entries.len()
    }

    /// The value set for `key`, if any.
    pub fn get(&self, key: &str) -> (r: Option<&String>)
        ensures
            r matches Some(v) ==> env_lookup(self@, key@) == Some(v@),
            r is None ==> env_lookup(self@, key@) is None,
    {
        let wanted = chars_of(key);
        let mut i: usize = self.entries.len();
        assert(self@.take(i as int) =~= self@);
        while i > 0
            invariant
                i <= self.entries.len(),
                self@.len() == self.entries@.len(),
                wanted@ == key@,
                env_lookup(self@, key@) == env_lookup(self@.take(i as int), key@),
            decreases i,
        {
            let ghost prefix = self@.take(i as int);
            assert(prefix.last() == self@[i - 1]);
            assert(prefix.drop_last() =~= self@.take(i - 1));
            let k = chars_of(self.entries[i - 1].0.as_str());
            if chars_eq(k.as_slice(), wanted.as_slice()) {
                return Some(&self.entries[i - 1].1);
            }
            i = i - 1;
        }
        None
    }

    /// Whether a value is set for `key`.
    pub fn contains_key(&self, key: &str) -> (r: bool)
        ensures
            r == env_lookup(self@, key@) is Some,
    {
        self.get(key).is_some()
    }
}

/// `value` without one pair of matching surrounding quotes (`"…"` or `'…'`).
pub open spec fn unquoted(value: Seq<char>) -> Seq<char> {
    if value.len() >= 2 && ((value[0] == '"' && value.last() == '"') || (value[0] == '\''
        && value.last() == '\'')) {
        value.subrange(1, value.len() - 1)
    } else {
        value
    }
}

/// `unquoted` on a character vector.
fn unquote_env_value(value: &[char]) -> (r: Vec<char>)
    ensures
        r@ == unquoted(value@),
{
    let n = value.len();
    if n >= 2 && ((value[0] == '"' && value[n - 1] == '"') || (value[0] == '\'' && value[n - 1]
        == '\'')) {
        slice_chars(value, 1, n - 1)
    } else {
        let mut out: Vec<char> = Vec::new();
        push_chars(&mut out, value);
        out
    }
}

/// The pair a `.env` line sets: none for blank lines, comments, lines without `=` and lines
/// with an empty key; else the trimmed key and the trimmed, unquoted value.
pub open spec fn env_line_entry(line: Seq<char>) -> Option<(Seq<char>, Seq<char>)> {
    let t = trimmed(line);
    if t.len() == 0 || t[0] == '#' {
        None
    } else {
        match find_first(t, seq!['=']) {
            None => None,
            Some(eq) => {
                let key = trimmed(t.take(eq));
                if key.len() == 0 {
                    None
                } else {
                    Some((key, unquoted(trimmed(t.skip(eq + 1)))))
                }
            },
        }
    }
}

/// The pairs set by `lines`, in order.
pub open spec fn env_entries(lines: Seq<Seq<char>>) -> Seq<(Seq<char>, Seq<char>)>
    decreases lines.len(),
{
    if lines.len() == 0 {
        seq![]
    } else {
        let before = env_entries(lines.drop_last());
        match env_line_entry(lines.last()) {
            Some(e) => before.push(e),
            None => before,
        }
    }
}

/// The pairs of a `.env` file's text.
pub open spec fn env_file_entries(content: Seq<char>) -> Seq<(Seq<char>, Seq<char>)> {
    env_entries(split_on(content, '\n'))
}

/// The pair a line sets, as computed.
fn line_entry(line: &[char]) -> (r: Option<(String, String)>)
    ensures
        r matches Some(e) ==> env_line_entry(line@) == Some((e.0@, e.1@)),
        r is None ==> env_line_entry(line@) is None,
{
    let t = trim_chars(line);
    if t.len() == 0 || t[0] == '#' {
        return None;
    }
    let eq_sign: Vec<char> = vec!['='];
    assert(eq_sign@ =~= seq!['=']);
    match find_chars(t.as_slice(), eq_sign.as_slice()) {
        None => None,
        Some(eq) => {
            proof {
                lemma_find_from(t@, seq!['='], 0);
            }
            let head = slice_chars(t.as_slice(), 0, eq);
            assert(head@ =~= t@.take(eq as int));
            let key = trim_chars(head.as_slice());
            if key.len() == 0 {
                return None;
            }
            let tail = slice_chars(t.as_slice(), eq + 1, t.len());
            assert(tail@ =~= t@.skip(eq + 1));
            let value = trim_chars(tail.as_slice());
            let unq = unquote_env_value(value.as_slice());
            Some((string_of(key.as_slice()), string_of(unq.as_slice())))
        },
    }
}

/// The pairs set by a `.env` file's text: comments, blank lines and lines without a key are
/// skipped; values lose their surrounding whitespace and one pair of matching quotes.
pub fn parse_local_env_content(content: &str) -> (r: LocalEnv)
    ensures
        r@ == env_file_entries(content@),
{
    let chars = chars_of(content);
    let lines = split_chars(chars.as_slice(), '\n');
    let ghost all = split_on(content@, '\n');
    let mut env = LocalEnv::new();
    let mut i: usize = 0;
    while i < lines.len()
        invariant
            i <= lines.len(),
            lines@.len() == all.len(),
            forall|k: int| 0 <= k < lines@.len() ==> #[trigger] lines@[k]@ == all[k],
            env@ == env_entries(all.take(i as int)),
        decreases lines.len() - i,
    {
        assert(all.take(i + 1).drop_last() =~= all.take(i as int));
        assert(all.take(i + 1).last() == lines@[i as int]@);
        match line_entry(lines[i].as_slice()) {
            Some(e) => {
                env.insert(e.0, e.1);
            },
            None => {},
        }
        i = i + 1;
    }
    assert(all.take(lines.len() as int) =~= all);
    env
}

/// The configured value for `key`: the process environment wins when it sets the key (a
/// blank value there counts as unset), else the `.env` value when it is not blank.
pub open spec fn config_lookup(
    process: Seq<(Seq<char>, Seq<char>)>,
    local: Seq<(Seq<char>, Seq<char>)>,
    key: Seq<char>,
) -> Option<Seq<char>> {
    match env_lookup(process, key) {
        Some(v) => if is_blank(v) {
            None
        } else {
            Some(v)
        },
        None => match env_lookup(local, key) {
            Some(v) => if is_blank(v) {
                None
            } else {
                Some(v)
            },
            None => None,
        },
    }
}

/// The configured value for `key`, from the process environment or else the `.env` file.
pub fn config_value(key: &str, process_env: &LocalEnv, local_env: &LocalEnv) -> (r: Option<String>)
    ensures
        r matches Some(v) ==> config_lookup(process_env@, local_env@, key@) == Some(v@),
        r is None ==> config_lookup(process_env@, local_env@, key@) is None,
{
    match process_env.get(key) {
        Some(v) => {
            if blank(v.as_str()) {
                None
            } else {
                Some(v.clone())
            }
        },
        None => match local_env.get(key) {
            Some(v) => {
                if blank(v.as_str()) {
                    None
                } else {
                    Some(v.clone())
                }
            },
            None => None,
        },
    }
}

/// The text of `value`, or of `default` when there is none.
pub open spec fn or_default(value: Option<Seq<char>>, default: Seq<char>) -> Seq<char> {
    match value {
        Some(v) => v,
        None => default,
    }
}

/// `value`, or the text `default` when there is none.
fn value_or(value: Option<String>, default: &str) -> (r: String)
    ensures
        r@ == or_default(
            match value {
                Some(v) => Some(v@),
                None => None,
            },
            default@,
        ),
{
    match value {
        Some(v) => v,
        None => string_of(chars_of(default).as_slice()),
    }
}

/// The settings for the DeepSeek chat model.
#[derive(Debug, Clone)]
pub struct DeepSeekConfig {
    pub api_key: String,
    pub model: String,
    pub base_url: String,
}

/// The DeepSeek settings: present only when an API key is configured; model and endpoint
/// fall back to their defaults.
pub fn deepseek_config(process_env: &LocalEnv, local_env: &LocalEnv) -> (r: Option<DeepSeekConfig>)
    ensures
        config_lookup(process_env@, local_env@, "DEEPSEEK_API_KEY"@) is None ==> r is None,
        config_lookup(process_env@, local_env@, "DEEPSEEK_API_KEY"@) matches Some(key) ==> {
            &&& r is Some
            &&& r->0.api_key@ == key
            &&& r->0.model@ == or_default(
                config_lookup(process_env@, local_env@, "DEEPSEEK_MODEL"@),
                default_deepseek_model(),
            )
            &&& r->0.base_url@ == or_default(
                config_lookup(process_env@, local_env@, "DEEPSEEK_BASE_URL"@),
                default_deepseek_base_url(),
            )
        },
{
    let api_key = match config_value("DEEPSEEK_API_KEY", process_env, local_env) {
        Some(k) => k,
        None => return None,
    };
    if blank(api_key.as_str()) {
        return None;
    }
    let model = value_or(config_value("DEEPSEEK_MODEL", process_env, local_env), "deepseek-v4-flash");
    let base_url = value_or(
        config_value("DEEPSEEK_BASE_URL", process_env, local_env),
        "https://api.deepseek.com",
    );
    Some(DeepSeekConfig { api_key, model, base_url })
}

/// The OCR model tier in effect for a configured value: `tiny` and `small` are kept (around
/// whitespace), anything else, or nothing, means `medium`.
pub open spec fn ocr_tier_of(value: Option<Seq<char>>) -> Seq<char> {
    match value {
        Some(v) => if trimmed(v) == "tiny"@ {
            "tiny"@
        } else if trimmed(v) == "small"@ {
            "small"@
        } else {
            "medium"@
        },
        None => "medium"@,
    }
}

/// The view of an optional text.
pub open spec fn opt_text(value: Option<&str>) -> Option<Seq<char>> {
    match value {
        Some(v) => Some(v@),
        None => None,
    }
}

/// The OCR model tier in effect for a configured value.
pub fn normalize_ocr_tier(value: Option<&str>) -> (r: String)
    ensures
        r@ == ocr_tier_of(opt_text(value)),
{
    match value {
        Some(v) => {
            let raw = chars_of(v);
            let t = trim_chars(raw.as_slice());
            if chars_eq(t.as_slice(), chars_of("tiny").as_slice()) {
                string_of(chars_of("tiny").as_slice())
            } else if chars_eq(t.as_slice(), chars_of("small").as_slice()) {
                string_of(chars_of("small").as_slice())
            } else {
                string_of(chars_of("medium").as_slice())
            }
        },
        None => string_of(chars_of("medium").as_slice()),
    }
}

/// How an API key is shown: `未配置` when blank, `已配置` when its trimmed text has at most
/// eight characters, else its first three and last four characters around `...`.
pub open spec fn key_hint_of(value: Seq<char>) -> Seq<char> {
    let t = trimmed(value);
    if t.len() == 0 {
        "未配置"@
    } else if t.len() <= 8 {
        "已配置"@
    } else {
        t.take(3) + "..."@ + t.skip(t.len() - 4)
    }
}

/// How an API key is shown, without revealing it.
pub fn redact_key(value: &str) -> (r: String)
    ensures
        r@ == key_hint_of(value@),
{
    let raw = chars_of(value);
    let t = trim_chars(raw.as_slice());
    if t.len() == 0 {
        return string_of(chars_of("未配置").as_slice());
    }
    if t.len() <= 8 {
        return string_of(chars_of("已配置").as_slice());
    }
    let mut out = slice_chars(t.as_slice(), 0, 3);
    assert(out@ =~= t@.take(3));
    push_str(&mut out, "...");
    let tail = slice_chars(t.as_slice(), t.len() - 4, t.len());
    assert(tail@ =~= t@.skip(t.len() - 4));
    push_chars(&mut out, tail.as_slice());
    string_of(out.as_slice())
}

/// The files each OCR model folder must hold.
pub open spec fn required_ocr_files() -> Seq<Seq<char>> {
    seq!["inference.json"@, "inference.pdiparams"@, "inference.yml"@]
}

/// The files each OCR model folder must hold.
pub fn required_ocr_model_files() -> (r: Vec<String>)
    ensures
        texts(r@) == required_ocr_files(),
{
    let mut out: Vec<String> = Vec::new();
    out.push(string_of(chars_of("inference.json").as_slice()));
    out.push(string_of(chars_of("inference.pdiparams").as_slice()));
    out.push(string_of(chars_of("inference.yml").as_slice()));
    assert(texts(out@) =~= required_ocr_files());
    out
}

/// The detection and recognition model folders of an OCR tier.
pub open spec fn ocr_models(tier: Seq<char>) -> Seq<Seq<char>> {
    seq!["PP-OCRv6_"@ + tier + "_det"@, "PP-OCRv6_"@ + tier + "_rec"@]
}

/// The detection and recognition model folders of an OCR tier.
pub fn ocr_model_names(tier: &str) -> (r: Vec<String>)
    ensures
        texts(r@) == ocr_models(tier@),
{
    let mut det: Vec<char> = Vec::new();
    push_str(&mut det, "PP-OCRv6_");
    push_str(&mut det, tier);
    push_str(&mut det, "_det");
    let mut rec: Vec<char> = Vec::new();
    push_str(&mut rec, "PP-OCRv6_");
    push_str(&mut rec, tier);
    push_str(&mut rec, "_rec");
    let mut out: Vec<String> = Vec::new();
    out.push(string_of(det.as_slice()));
    out.push(string_of(rec.as_slice()));
    assert(texts(out@) =~= ocr_models(tier@));
    out
}

/// The views of a list of texts.
pub open spec fn texts(v: Seq<String>) -> Seq<Seq<char>> {
    v.map_values(|s: String| s@)
}

/// The views of a list of texts have its length and its elements' views.
pub proof fn lemma_texts(v: Seq<String>)
    ensures
        texts(v).len() == v.len(),
        forall|k: int| 0 <= k < v.len() ==> #[trigger] texts(v)[k] == v[k]@,
{
}

/// Whether `path` is among the paths found present.
pub open spec fn is_present(present: Seq<Seq<char>>, path: Seq<char>) -> bool {
    present.contains(path)
}

/// The missing assets of one OCR model: the folder itself when it is absent, else each
/// required file it lacks, written `folder/file`.
pub open spec fn missing_model_assets(present: Seq<Seq<char>>, model: Seq<char>) -> Seq<Seq<char>> {
    if !is_present(present, model) {
        seq![model]
    } else {
        missing_files(present, model, required_ocr_files().len())
    }
}

/// The first `n` required files that the model folder lacks, written `folder/file`.
pub open spec fn missing_files(present: Seq<Seq<char>>, model: Seq<char>, n: nat) -> Seq<Seq<char>>
    decreases n,
{
    if n == 0 {
        seq![]
    } else {
        let before = missing_files(present, model, (n - 1) as nat);
        let path = model + "/"@ + required_ocr_files()[n - 1];
        if is_present(present, path) {
            before
        } else {
            before.push(path)
        }
    }
}

/// The missing assets of an OCR tier, detection model first.
pub open spec fn missing_ocr(present: Seq<Seq<char>>, tier: Seq<char>) -> Seq<Seq<char>> {
    missing_model_assets(present, ocr_models(tier)[0]) + missing_model_assets(present, ocr_models(tier)[1])
}

/// Whether `path` is in `present`.
pub(crate) fn contains_path(present: &[String], path: &[char]) -> (r: bool)
    ensures
        r == is_present(texts(present@), path@),
{
    let mut i: usize = 0;
    while i < present.len()
        invariant
            i <= present.len(),
            forall|k: int| 0 <= k < i ==> texts(present@)[k] != path@,
        decreases present.len() - i,
    {
        let p = chars_of(present[i].as_str());
        if chars_eq(p.as_slice(), path) {
            assert(texts(present@)[i as int] == path@);
            return true;
        }
        i = i + 1;
    }
    proof {
        if texts(present@).contains(path@) {
            let k = choose|k: int| 0 <= k < texts(present@).len() && texts(present@)[k] == path@;
            assert(texts(present@)[k] != path@);
        }
    }
    false
}

/// Appends the missing assets of one OCR model.
fn push_missing_model_assets(out: &mut Vec<String>, present: &[String], model: &str)
    ensures
        texts(final(out)@) == texts(old(out)@) + missing_model_assets(texts(present@), model@),
{
    let ghost start = texts(out@);
    let name = chars_of(model);
    if !contains_path(present, name.as_slice()) {
        out.push(string_of(name.as_slice()));
        assert(texts(out@) =~= start + missing_model_assets(texts(present@), model@));
        return;
    }
    let files = required_ocr_model_files();
    let ghost required = required_ocr_files();
    proof {
        lemma_texts(files@);
    }
    let mut i: usize = 0;
    while i < files.len()
        invariant
            i <= files.len(),
            files@.len() == 3,
            texts(files@) == required,
            required == required_ocr_files(),
            name@ == model@,
            texts(out@) == start + missing_files(texts(present@), model@, i as nat),
        decreases files.len() - i,
    {
        let mut path: Vec<char> = Vec::new();
        push_chars(&mut path, name.as_slice());
        push_str(&mut path, "/");
        push_str(&mut path, files[i].as_str());
        assert(texts(files@)[i as int] == files@[i as int]@);
        assert(path@ =~= model@ + "/"@ + required[i as int]);
        let ghost before = out@;
        if !contains_path(present, path.as_slice()) {
            out.push(string_of(path.as_slice()));
            assert(texts(out@) =~= texts(before).push(path@));
        }
        i = i + 1;
        assert(texts(out@) =~= start + missing_files(texts(present@), model@, i as nat));
    }
}

/// The OCR assets of `tier` that are missing, given the model folders and files found
/// present (`folder` and `folder/file`).
pub fn missing_ocr_assets(present: &[String], tier: &str) -> (r: Vec<String>)
    ensures
        texts(r@) == missing_ocr(texts(present@), tier@),
{
    let models = ocr_model_names(tier);
    proof {
        lemma_texts(models@);
    }
    let mut out: Vec<String> = Vec::new();
    assert(texts(out@) =~= Seq::<Seq<char>>::empty());
    push_missing_model_assets(&mut out, present, models[0].as_str());
    push_missing_model_assets(&mut out, present, models[1].as_str());
    assert(texts(out@) =~= missing_ocr(texts(present@), tier@));
    out
}

/// The files the vision model folder must hold.
pub open spec fn required_vision_files() -> Seq<Seq<char>> {
    seq!["config.json"@, "model.safetensors"@, "tokenizer.json"@]
}

/// Whether some required vision file is missing, given the files found present.
pub fn missing_vision_assets(present: &[String]) -> (r: bool)
    ensures
        r == exists|k: int|
            0 <= k < 3 && !is_present(texts(present@), #[trigger] required_vision_files()[k]),
{
    let config = chars_of("config.json");
    let model = chars_of("model.safetensors");
    let tokenizer = chars_of("tokenizer.json");
    let a = contains_path(present, config.as_slice());
    let b = contains_path(present, model.as_slice());
    let c = contains_path(present, tokenizer.as_slice());
    assert(required_vision_files()[0] == config@);
    assert(required_vision_files()[1] == model@);
    assert(required_vision_files()[2] == tokenizer@);
    !(a && b && c)
}

/// The settings of the local OCR models.
#[derive(Debug, Clone)]
pub struct OcrConfig {
    pub tier: String,
    pub model_dir: String,
}

/// The settings of the local vision model.
#[derive(Debug, Clone)]
pub struct VisionConfig {
    pub model_dir: String,
}

/// The OCR settings: the configured tier (normalised) and model folder, or `default_model_dir`.
pub fn ocr_config(process_env: &LocalEnv, local_env: &LocalEnv, default_model_dir: String) -> (r: OcrConfig)
    ensures
        r.tier@ == ocr_tier_of(config_lookup(process_env@, local_env@, "OCR_MODEL_TIER"@)),
        r.model_dir@ == or_default(
            config_lookup(process_env@, local_env@, "OCR_MODEL_DIR"@),
            default_model_dir@,
        ),
{
    let tier_value = config_value("OCR_MODEL_TIER", process_env, local_env);
    let tier = match &tier_value {
        Some(v) => normalize_ocr_tier(Some(v.as_str())),
        None => normalize_ocr_tier(None),
    };
    let model_dir = match config_value("OCR_MODEL_DIR", process_env, local_env) {
        Some(v) => v,
        None => default_model_dir,
    };
    OcrConfig { tier, model_dir }
}

/// The vision settings: the configured model folder, or `default_model_dir`.
pub fn vision_config(process_env: &LocalEnv, local_env: &LocalEnv, default_model_dir: String) -> (r: VisionConfig)
    ensures
        r.model_dir@ == or_default(
            config_lookup(process_env@, local_env@, "VISION_MODEL_DIR"@),
            default_model_dir@,
        ),
{
    let model_dir = match config_value("VISION_MODEL_DIR", process_env, local_env) {
        Some(v) => v,
        None => default_model_dir,
    };
    VisionConfig { model_dir }
}

/// The status shown for the runtimes. The chat model counts as configured when a non-blank
/// key is given; the OCR models when none of their assets is missing; the vision model when
/// none of its files is.
pub fn build_runtime_status(
    api_key: Option<&str>,
    model: String,
    base_url: String,
    tier: String,
    ocr_model_dir: String,
    vision_model_dir: String,
    present_ocr_assets: &[String],
    present_vision_files: &[String],
) -> (r: RuntimeStatus)
    ensures
        r.deepseek.configured == (api_key matches Some(k) && !is_blank(k@)),
        r.deepseek.model == model,
        r.deepseek.base_url == base_url,
        r.deepseek.key_hint@ == match api_key {
            Some(k) => key_hint_of(k@),
            None => "未配置"@,
        },
        texts(r.ocr.missing_models@) == missing_ocr(texts(present_ocr_assets@), tier@),
        r.ocr.configured == (r.ocr.missing_models@.len() == 0),
        r.ocr.tier == tier,
        r.ocr.model_dir == ocr_model_dir,
        r.vision.missing_models == exists|k: int|
            0 <= k < 3 && !is_present(texts(present_vision_files@), #[trigger] required_vision_files()[k]),
        r.vision.configured == !r.vision.missing_models,
        r.vision.model_dir == vision_model_dir,
{
    let missing_ocr_models = missing_ocr_assets(present_ocr_assets, tier.as_str());
    let missing_vision_models = missing_vision_assets(present_vision_files);
    let configured = match api_key {
        Some(k) => !blank(k),
        None => false,
    };
    let key_hint = match api_key {
        Some(k) => redact_key(k),
        None => string_of(chars_of("未配置").as_slice()),
    };
    let ocr_configured = missing_ocr_models.len() == 0;
    RuntimeStatus {
        deepseek: DeepSeekRuntimeStatus { configured, model, base_url, key_hint },
        ocr: OcrRuntimeStatus {
            configured: ocr_configured,
            tier,
            model_dir: ocr_model_dir,
            missing_models: missing_ocr_models,
        },
        vision: VisionRuntimeStatus {
            configured: !missing_vision_models,
            model_dir: vision_model_dir,
            missing_models: missing_vision_models,
        },
    }
}

/// The status of the runtimes as configured: the DeepSeek key, model and endpoint looked up
/// in the process environment and the `.env` file (with their defaults), and the OCR and
/// vision settings `ocr` and `vision`, whose model folders were found to hold
/// `present_ocr_assets` and `present_vision_files`.
pub fn runtime_status(
    process_env: &LocalEnv,
    local_env: &LocalEnv,
    ocr: OcrConfig,
    vision: VisionConfig,
    present_ocr_assets: &[String],
    present_vision_files: &[String],
) -> (r: RuntimeStatus)
    ensures
        r.deepseek.configured == config_lookup(process_env@, local_env@, "DEEPSEEK_API_KEY"@) is Some,
        r.deepseek.key_hint@ == match config_lookup(process_env@, local_env@, "DEEPSEEK_API_KEY"@) {
            Some(k) => key_hint_of(k),
            None => "未配置"@,
        },
        r.deepseek.model@ == or_default(
            config_lookup(process_env@, local_env@, "DEEPSEEK_MODEL"@),
            default_deepseek_model(),
        ),
        r.deepseek.base_url@ == or_default(
            config_lookup(process_env@, local_env@, "DEEPSEEK_BASE_URL"@),
            default_deepseek_base_url(),
        ),
        texts(r.ocr.missing_models@) == missing_ocr(texts(present_ocr_assets@), ocr.tier@),
        r.ocr.configured == (r.ocr.missing_models@.len() == 0),
        r.ocr.tier == ocr.tier,
        r.ocr.model_dir == ocr.model_dir,
        r.vision.missing_models == exists|k: int|
            0 <= k < 3 && !is_present(texts(present_vision_files@), #[trigger] required_vision_files()[k]),
        r.vision.configured == !r.vision.missing_models,
        r.vision.model_dir == vision.model_dir,
{
    let api_key = config_value("DEEPSEEK_API_KEY", process_env, local_env);
    let model = value_or(config_value("DEEPSEEK_MODEL", process_env, local_env), "deepseek-v4-flash");
    let base_url = value_or(
        config_value("DEEPSEEK_BASE_URL", process_env, local_env),
        "https://api.deepseek.com",
    );
    let key = match &api_key {
        Some(k) => Some(k.as_str()),
        None => None,
    };
    build_runtime_status(
        key,
        model,
        base_url,
        ocr.tier,
        ocr.model_dir,
        vision.model_dir,
        present_ocr_assets,
        present_vision_files,
    )
}

} // verus!
