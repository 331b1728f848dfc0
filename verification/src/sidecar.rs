//! The decisions around the Python sidecars (document parser, OCR, vision): which script and
//! interpreter to run, and what their replies and failures mean.
use vstd::prelude::*;

use crate::text::chars_of;
use crate::text::first_chars;
use crate::text::push_chars;
use crate::text::push_str;
use crate::text::split_chars;
use crate::text::split_on;
use crate::text::string_of;
use crate::text::take_chars_of;
use crate::text::trim_chars;
use crate::text::trimmed;
use crate::text::truncate_chars_of;
use crate::text::truncated;
use crate::error::AppError;

verus! {

/// A text made of the characters of a literal.
fn text(value: &str) -> (r: String)
    ensures
        r@ == value@,
{
    string_of(chars_of(value).as_slice())
}

/// The error a sidecar reports: a code and a message.
#[derive(Debug, Clone)]
pub struct SidecarFailure {
    pub code: String,
    pub message: String,
}

/// What a sidecar's reply means: its result when it reports success with one; else an error
/// naming what is missing, or the sidecar's own code and message.
pub fn envelope_result<T>(
    ok: bool,
    result: Option<T>,
    error: Option<SidecarFailure>,
    label: &str,
) -> (r: Result<T, AppError>)
    ensures
        ok && result is Some ==> r == Ok::<T, AppError>(result->0),
        ok && result is None ==> (r matches Err(AppError::Filesystem(m)) && m@ == label@ + " 缺少 result"@),
        !ok && error is None ==> (r matches Err(AppError::Filesystem(m)) && m@ == label@ + " 返回失败但缺少错误信息"@),
        !ok && error is Some ==> (r matches Err(AppError::Filesystem(m)) && m@ == error->0.code@ + "："@
            + error->0.message@),
{
    if ok {
        match result {
            Some(value) => Ok(value),
            None => {
                let mut m: Vec<char> = Vec::new();
                push_str(&mut m, label);
                push_str(&mut m, " 缺少 result");
                Err(AppError::Filesystem(string_of(m.as_slice())))
            },
        }
    } else {
        match error {
            None => {
                let mut m: Vec<char> = Vec::new();
                push_str(&mut m, label);
                push_str(&mut m, " 返回失败但缺少错误信息");
                Err(AppError::Filesystem(string_of(m.as_slice())))
            },
            Some(failure) => {
                let mut m: Vec<char> = Vec::new();
                push_str(&mut m, failure.code.as_str());
                push_str(&mut m, "：");
                push_str(&mut m, failure.message.as_str());
                Err(AppError::Filesystem(string_of(m.as_slice())))
            },
        }
    }
}

/// The message of a sidecar that exited with failure: the label and up to 500 characters of
/// its trimmed error output.
pub open spec fn exit_failure_message(label: Seq<char>, stderr: Seq<char>) -> Seq<char> {
    label + " 退出失败："@ + truncated(trimmed(stderr), 500)
}

/// The message of a sidecar that exited with failure.
pub fn sidecar_exit_message(label: &str, stderr: &str) -> (r: String)
    ensures
        r@ == exit_failure_message(label@, stderr@),
{
    let mut m: Vec<char> = Vec::new();
    push_str(&mut m, label);
    push_str(&mut m, " 退出失败：");
    let t = trim_chars(chars_of(stderr).as_slice());
    push_chars(&mut m, truncate_chars_of(t.as_slice(), 500).as_slice());
    string_of(m.as_slice())
}

/// The last line of a sidecar's trimmed output, none when the output is blank.
pub open spec fn last_line_of(stdout: Seq<char>) -> Option<Seq<char>> {
    let t = trimmed(stdout);
    if t.len() == 0 {
        None
    } else {
        Some(line_text(split_on(t, '\n').last()))
    }
}

/// A line as `str::lines` yields it: without a trailing carriage return.
pub open spec fn line_text(line: Seq<char>) -> Seq<char> {
    if line.len() > 0 && line.last() == '\r' {
        line.drop_last()
    } else {
        line
    }
}

/// The last line of a sidecar's trimmed output, none when the output is blank.
pub fn last_output_line(stdout: &str) -> (r: Option<String>)
    ensures
        r matches Some(l) ==> last_line_of(stdout@) == Some(l@),
        r is None ==> last_line_of(stdout@) is None,
{
    let t = trim_chars(chars_of(stdout).as_slice());
    if t.len() == 0 {
        return None;
    }
    let lines = split_chars(t.as_slice(), '\n');
    proof {
        crate::text::lemma_split_nonempty(t@, '\n');
    }
    let last = &lines[lines.len() - 1];
    let n = last.len();
    if n > 0 && last[n - 1] == '\r' {
        let kept = take_chars_of(last.as_slice(), n - 1);
        assert(kept@ =~= last@.drop_last());
        Some(string_of(kept.as_slice()))
    } else {
        Some(string_of(last.as_slice()))
    }
}

/// A path and whether a file was found there.
#[derive(Debug, Clone)]
pub struct PathCheck {
    pub path: String,
    pub is_file: bool,
}

/// The document-parser script to run: the path set in `PARSER_SIDECAR_PATH` (trimmed, when not
/// blank; an error when no file is there), else the bundled resource when it is a file, else
/// the script under the project root (an error when no project root was found).
pub fn resolve_parser_sidecar_script(
    explicit: Option<PathCheck>,
    resource: Option<PathCheck>,
    project_script: Option<String>,
) -> (r: Result<String, AppError>)
    ensures
        explicit matches Some(e) ==> {
            &&& e.is_file ==> r == Ok::<String, AppError>(e.path)
            &&& !e.is_file ==> (r matches Err(AppError::Filesystem(m)) && m@
                == "PARSER_SIDECAR_PATH 指向的 sidecar 不存在："@ + e.path@)
        },
        explicit is None && (resource matches Some(p) && p.is_file) ==> r == Ok::<String, AppError>(
            resource->0.path,
        ),
        explicit is None && !(resource matches Some(p) && p.is_file) ==> {
            &&& project_script matches Some(s) ==> r == Ok::<String, AppError>(s)
            &&& project_script is None ==> (r matches Err(AppError::Filesystem(m)) && m@
                == "找不到项目根目录下的文档解析 sidecar"@)
        },
{
    if let Some(e) = explicit {
        if e.is_file {
            return Ok(e.path);
        }
        let mut m: Vec<char> = Vec::new();
        push_str(&mut m, "PARSER_SIDECAR_PATH 指向的 sidecar 不存在：");
        push_str(&mut m, e.path.as_str());
        return Err(AppError::Filesystem(string_of(m.as_slice())));
    }
    if let Some(p) = resource {
        if p.is_file {
            return Ok(p.path);
        }
    }
    match project_script {
        Some(s) => Ok(s),
        None => Err(AppError::Filesystem(text("找不到项目根目录下的文档解析 sidecar"))),
    }
}

/// The OCR script to run: the bundled resource when it is a file, else the path set in
/// `OCR_SIDECAR_PATH` (trimmed, when not blank; an error when no file is there), else the
/// script under the project root (an error when no project root was found).
pub fn resolve_ocr_sidecar_script(
    resource: Option<PathCheck>,
    explicit: Option<PathCheck>,
    project_script: Option<String>,
) -> (r: Result<String, AppError>)
    ensures
        (resource matches Some(p) && p.is_file) ==> r == Ok::<String, AppError>(resource->0.path),
        !(resource matches Some(p) && p.is_file) ==> {
            &&& (explicit matches Some(e) && e.is_file) ==> r == Ok::<String, AppError>(explicit->0.path)
            &&& (explicit matches Some(e) && !e.is_file) ==> (r matches Err(AppError::Filesystem(m)) && m@
                == "OCR_SIDECAR_PATH 指向的 sidecar 不存在："@ + explicit->0.path@)
            &&& explicit is None && project_script is Some ==> r == Ok::<String, AppError>(project_script->0)
            &&& explicit is None && project_script is None ==> (r matches Err(AppError::Filesystem(m))
                && m@ == "找不到项目根目录下的 OCR sidecar"@)
        },
{
    if let Some(p) = resource {
        if p.is_file {
            return Ok(p.path);
        }
    }
    if let Some(e) = explicit {
        if e.is_file {
            return Ok(e.path);
        }
        let mut m: Vec<char> = Vec::new();
        push_str(&mut m, "OCR_SIDECAR_PATH 指向的 sidecar 不存在：");
        push_str(&mut m, e.path.as_str());
        return Err(AppError::Filesystem(string_of(m.as_slice())));
    }
    match project_script {
        Some(s) => Ok(s),
        None => Err(AppError::Filesystem(text("找不到项目根目录下的 OCR sidecar"))),
    }
}

/// The OCR environment checker to run: the bundled resource when it is a file, else the one
/// under the project root (an error when no project root was found).
pub fn resolve_ocr_environment_checker(
    resource: Option<PathCheck>,
    project_script: Option<String>,
) -> (r: Result<String, AppError>)
    ensures
        (resource matches Some(p) && p.is_file) ==> r == Ok::<String, AppError>(resource->0.path),
        !(resource matches Some(p) && p.is_file) && project_script is Some ==> r == Ok::<String, AppError>(
            project_script->0,
        ),
        !(resource matches Some(p) && p.is_file) && project_script is None ==> (r matches Err(
            AppError::Filesystem(m),
        ) && m@ == "找不到项目根目录下的 OCR sidecar"@),
{
    if let Some(p) = resource {
        if p.is_file {
            return Ok(p.path);
        }
    }
    match project_script {
        Some(s) => Ok(s),
        None => Err(AppError::Filesystem(text("找不到项目根目录下的 OCR sidecar"))),
    }
}

/// The vision script to run: the one under the resource folder, else the one under the
/// project root, whichever is a file first; an error when neither is.
pub fn resolve_vision_sidecar_script(
    resource_script: Option<PathCheck>,
    project_script: Option<PathCheck>,
) -> (r: Result<String, AppError>)
    ensures
        (resource_script matches Some(p) && p.is_file) ==> r == Ok::<String, AppError>(resource_script->0.path),
        !(resource_script matches Some(p) && p.is_file) && (project_script matches Some(p) && p.is_file)
            ==> r == Ok::<String, AppError>(project_script->0.path),
        !(resource_script matches Some(p) && p.is_file) && !(project_script matches Some(p) && p.is_file)
            ==> (r matches Err(AppError::Filesystem(m)) && m@ == "无法找到 vision_sidecar.py"@),
{
    if let Some(p) = resource_script {
        if p.is_file {
            return Ok(p.path);
        }
    }
    if let Some(p) = project_script {
        if p.is_file {
            return Ok(p.path);
        }
    }
    Err(AppError::Filesystem(text("无法找到 vision_sidecar.py")))
}

/// The Python interpreter for the document parser: the path set in `PARSER_PYTHON_PATH`
/// (trimmed, when not blank; an error when no file is there), else the project's virtual
/// environment when present, else `python`.
pub fn parser_python_executable(explicit: Option<PathCheck>, venv_python: Option<PathCheck>) -> (r: Result<String, AppError>)
    ensures
        (explicit matches Some(e) && e.is_file) ==> r == Ok::<String, AppError>(explicit->0.path),
        (explicit matches Some(e) && !e.is_file) ==> (r matches Err(AppError::Filesystem(m)) && m@
            == "PARSER_PYTHON_PATH 指向的 Python 不存在："@ + explicit->0.path@),
        explicit is None && (venv_python matches Some(v) && v.is_file) ==> r == Ok::<String, AppError>(
            venv_python->0.path,
        ),
        explicit is None && !(venv_python matches Some(v) && v.is_file) ==> (r matches Ok(p) && p@ == "python"@),
{
    if let Some(e) = explicit {
        if e.is_file {
            return Ok(e.path);
        }
        let mut m: Vec<char> = Vec::new();
        push_str(&mut m, "PARSER_PYTHON_PATH 指向的 Python 不存在：");
        push_str(&mut m, e.path.as_str());
        return Err(AppError::Filesystem(string_of(m.as_slice())));
    }
    if let Some(v) = venv_python {
        if v.is_file {
            return Ok(v.path);
        }
    }
    Ok(text("python"))
}

/// The Python interpreter for OCR and vision: the first candidate that is a file (the
/// explicit path, then the project's virtual environment), else `python`.
pub fn python_executable(explicit: Option<PathCheck>, venv_python: Option<PathCheck>) -> (r: String)
    ensures
        (explicit matches Some(e) && e.is_file) ==> r == explicit->0.path,
        !(explicit matches Some(e) && e.is_file) && (venv_python matches Some(v) && v.is_file) ==> r
            == venv_python->0.path,
        !(explicit matches Some(e) && e.is_file) && !(venv_python matches Some(v) && v.is_file) ==> r@
            == "python"@,
{
    if let Some(e) = explicit {
        if e.is_file {
            return e.path;
        }
    }
    if let Some(v) = venv_python {
        if v.is_file {
            return v.path;
        }
    }
    text("python")
}

/// The path an environment variable names: its value trimmed, none when blank.
pub open spec fn explicit_path_of(value: Option<Seq<char>>) -> Option<Seq<char>> {
    match value {
        Some(v) => if trimmed(v).len() == 0 {
            None
        } else {
            Some(trimmed(v))
        },
        None => None,
    }
}

/// The path an environment variable names: its value trimmed, none when blank.
pub fn explicit_path(value: Option<&str>) -> (r: Option<String>)
    ensures
        r matches Some(p) ==> explicit_path_of(match value {
            Some(v) => Some(v@),
            None => None,
        }) == Some(p@),
        r is None ==> explicit_path_of(match value {
            Some(v) => Some(v@),
            None => None,
        }) is None,
{
    match value {
        Some(v) => {
            let t = trim_chars(chars_of(v).as_slice());
            if t.len() == 0 {
                None
            } else {
                Some(string_of(t.as_slice()))
            }
        },
        None => None,
    }
}

/// Which sidecar is run.
#[derive(Debug, Clone, Copy, PartialEq, Eq, Structural)]
pub enum SidecarKind {
    Parser,
    Ocr,
    OcrEnvironment,
    Vision,
}

/// What to do while waiting for a sidecar.
#[derive(Debug, Clone, Copy, PartialEq, Eq, Structural)]
pub enum WaitStep {
    /// The process has exited: read its output.
    Finished,
    /// The user cancelled: stop the process and report it.
    Cancelled,
    /// The time is up: stop the process and report it.
    TimedOut,
    /// Wait a little and look again.
    KeepWaiting,
}

/// The next step while waiting for a sidecar: an exit wins, then a cancellation (for the
/// sidecars that can be cancelled), then the timeout.
pub fn wait_step(kind: SidecarKind, exited: bool, cancel_requested: bool, elapsed_millis: u64, timeout_millis: u64) -> (r: WaitStep)
    ensures
        exited ==> r == WaitStep::Finished,
        !exited && cancel_requested && (kind == SidecarKind::Ocr || kind == SidecarKind::Vision) ==> r
            == WaitStep::Cancelled,
        !exited && !(cancel_requested && (kind == SidecarKind::Ocr || kind == SidecarKind::Vision))
            && elapsed_millis >= timeout_millis ==> r == WaitStep::TimedOut,
        !exited && !(cancel_requested && (kind == SidecarKind::Ocr || kind == SidecarKind::Vision))
            && elapsed_millis < timeout_millis ==> r == WaitStep::KeepWaiting,
{
    if exited {
        WaitStep::Finished
    } else if cancel_requested && (matches!(kind, SidecarKind::Ocr) || matches!(kind, SidecarKind::Vision)) {
        WaitStep::Cancelled
    } else if elapsed_millis >= timeout_millis {
        WaitStep::TimedOut
    } else {
        WaitStep::KeepWaiting
    }
}

/// How long a sidecar may run, in milliseconds.
pub fn sidecar_timeout_millis(kind: SidecarKind) -> (r: u64)
    ensures
        kind == SidecarKind::Parser ==> r == 60000,
        kind == SidecarKind::Ocr ==> r == 120000,
        kind == SidecarKind::OcrEnvironment ==> r == 60000,
        kind == SidecarKind::Vision ==> r == 300000,
{
    match kind {
        SidecarKind::Parser => 60000,
        SidecarKind::Ocr => 120000,
        SidecarKind::OcrEnvironment => 60000,
        SidecarKind::Vision => 300000,
    }
}

/// The message of a cancelled or timed-out sidecar run.
pub open spec fn stop_message(kind: SidecarKind, step: WaitStep) -> Seq<char> {
    match step {
        WaitStep::Cancelled => match kind {
            SidecarKind::Vision => "VISION_CANCELLED：用户取消了 Vision 任务"@,
            _ => "OCR_CANCELLED：用户取消了 OCR 任务"@,
        },
        _ => match kind {
            SidecarKind::Parser => "PARSER_TIMEOUT：文档解析 sidecar 执行超时"@,
            SidecarKind::Ocr => "OCR_TIMEOUT：OCR sidecar 执行超时"@,
            SidecarKind::OcrEnvironment => "OCR_ENV_CHECK_TIMEOUT：OCR 环境自检超时"@,
            SidecarKind::Vision => "VISION_TIMEOUT：Vision sidecar 执行超时"@,
        },
    }
}

/// The error of a cancelled or timed-out sidecar run.
pub fn stop_error(kind: SidecarKind, step: WaitStep) -> (r: AppError)
    ensures
        r matches AppError::Filesystem(m) && m@ == stop_message(kind, step),
{
    let m = match step {
        WaitStep::Cancelled => match kind {
            SidecarKind::Vision => text("VISION_CANCELLED：用户取消了 Vision 任务"),
            _ => text("OCR_CANCELLED：用户取消了 OCR 任务"),
        },
        _ => match kind {
            SidecarKind::Parser => text("PARSER_TIMEOUT：文档解析 sidecar 执行超时"),
            SidecarKind::Ocr => text("OCR_TIMEOUT：OCR sidecar 执行超时"),
            SidecarKind::OcrEnvironment => text("OCR_ENV_CHECK_TIMEOUT：OCR 环境自检超时"),
            SidecarKind::Vision => text("VISION_TIMEOUT：Vision sidecar 执行超时"),
        },
    };
    AppError::Filesystem(m)
}

/// The result of a streaming OCR run once the process has ended: the last result it
/// reported, or an error when it reported none.
pub fn final_stream_result<T>(reported: Option<Result<T, AppError>>) -> (r: Result<T, AppError>)
    ensures
        reported matches Some(x) ==> r == x,
        reported is None ==> (r matches Err(AppError::Filesystem(m)) && m@ == "OCR sidecar 未返回最终结果"@),
{
    match reported {
        Some(x) => x,
        None => Err(AppError::Filesystem(text("OCR sidecar 未返回最终结果"))),
    }
}

} // verus!
