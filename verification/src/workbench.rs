//! The workbench session: the active knowledge space, the session permission, the chat
//! history, and the snapshot shown to the user.
use vstd::prelude::*;

use crate::text::chars_eq;
use crate::text::chars_of;
use crate::text::decimal;
use crate::text::decimal_chars;
use crate::text::push_chars;
use crate::text::push_str;
use crate::text::string_of;
use crate::text::trim;
use crate::text::trimmed;
use crate::error::AppError;
use crate::models::can_request_session_permission;
use crate::models::session_permission_allowed;
use crate::models::ChatMessage;
use crate::models::ChatRole;
use crate::models::ChatScope;
use crate::models::KnowledgeBlockPreview;
use crate::models::KnowledgeBlockSearchHit;
use crate::models::KnowledgeFile;
use crate::models::KnowledgeSpace;
use crate::models::ParseJobSummary;
use crate::models::PermissionMode;
use crate::models::TableInsightPreview;
use crate::models::WorkbenchSnapshot;

verus! {

/// The most chat messages the workbench keeps.
pub const MAX_CHAT_MESSAGES: usize = 24;

/// The state of the workbench besides the store: the active space, the chat scope, the
/// session permission and the recent chat messages.
pub struct Workbench {
    pub active_space_id: Option<String>,
    pub active_scope: ChatScope,
    pub session_permission: PermissionMode,
    pub messages: Vec<ChatMessage>,
}

/// Whether some space has id `id`.
pub open spec fn space_listed(spaces: Seq<KnowledgeSpace>, id: Seq<char>) -> bool {
    exists|i: int| 0 <= i < spaces.len() && (#[trigger] spaces[i]).id@ == id
}

/// The session permission that stands under a space whose default is `folder_default`: the
/// current one when the default allows it, else the default itself.
pub open spec fn resolved_permission(folder_default: PermissionMode, current: PermissionMode) -> PermissionMode {
    if session_permission_allowed(folder_default, current) {
        current
    } else {
        folder_default
    }
}

/// The last `n` messages of `messages`, or all of them when there are fewer.
pub open spec fn keep_last(messages: Seq<ChatMessage>, n: nat) -> Seq<ChatMessage> {
    if messages.len() > n {
        messages.skip(messages.len() - n)
    } else {
        messages
    }
}

/// The active space kept after the spaces were listed: the current one while it is listed,
/// else the first space, else none.
pub open spec fn resolved_space(current: Option<String>, spaces: Seq<KnowledgeSpace>) -> Option<String> {
    match current {
        Some(id) if space_listed(spaces, id@) => Some(id),
        _ => if spaces.len() > 0 {
            Some(spaces[0].id)
        } else {
            None
        },
    }
}

/// Whether `id` is the id of some space.
fn listed(spaces: &[KnowledgeSpace], id: &str) -> (r: bool)
    ensures
        r == space_listed(spaces@, id@),
{
    let wanted = chars_of(id);
    let mut i: usize = 0;
    while i < spaces.len()
        invariant
            i <= spaces.len(),
            wanted@ == id@,
            forall|k: int| 0 <= k < i ==> (#[trigger] spaces@[k]).id@ != id@,
        decreases spaces.len() - i,
    {
        if chars_eq(chars_of(spaces[i].id.as_str()).as_slice(), wanted.as_slice()) {
            return true;
        }
        i = i + 1;
    }
    false
}

impl Workbench {
    /// A fresh session: no active space, the current folder as chat scope, read-only access
    /// and no messages.
    pub fn new() -> (r: Workbench)
        ensures
            r.active_space_id is None,
            r.active_scope == ChatScope::CurrentFolder,
            r.session_permission == PermissionMode::Readonly,
            r.messages@.len() == 0,
    {
        Workbench {
            active_space_id: None,
            active_scope: ChatScope::CurrentFolder,
            session_permission: PermissionMode::Readonly,
            messages: Vec::new(),
        }
    }

    /// The active space among `spaces`: the current one while it is listed, else the first
    /// space (which becomes the active one), else none, shown as an empty id.
    pub fn resolve_active_space_id(&mut self, spaces: &[KnowledgeSpace]) -> (r: String)
        ensures
            final(self).active_scope == old(self).active_scope,
            final(self).session_permission == old(self).session_permission,
            final(self).messages == old(self).messages,
            final(self).active_space_id == resolved_space(old(self).active_space_id, spaces@),
            r@ == match resolved_space(old(self).active_space_id, spaces@) {
                Some(id) => id@,
                None => Seq::<char>::empty(),
            },
    {
        let current = match &self.active_space_id {
            Some(id) => if listed(spaces, id.as_str()) {
                Some(id.clone())
            } else {
                None
            },
            None => None,
        };
        match current {
            Some(id) => id,
            None => {
                if spaces.len() > 0 {
                    let first = spaces[0].id.clone();
                    self.active_space_id = Some(first.clone());
                    first
                } else {
                    self.active_space_id = None;
                    String::new()
                }
            },
        }
    }

    /// The session permission under the active space: read-only without a space; else the
    /// current one when the space's default allows it, otherwise lowered to that default.
    /// The session keeps the permission returned.
    pub fn resolve_session_permission(&mut self, active_space: Option<&KnowledgeSpace>) -> (r: PermissionMode)
        ensures
            final(self).active_space_id == old(self).active_space_id,
            final(self).active_scope == old(self).active_scope,
            final(self).messages == old(self).messages,
            final(self).session_permission == r,
            active_space is None ==> r == PermissionMode::Readonly,
            active_space matches Some(space) ==> r == resolved_permission(
                space.default_permission,
                old(self).session_permission,
            ),
    {
        match active_space {
            None => {
                self.session_permission = PermissionMode::Readonly;
                PermissionMode::Readonly
            },
            Some(space) => {
                if !can_request_session_permission(&space.default_permission, &self.session_permission) {
                    self.session_permission = space.default_permission;
                }
                self.session_permission
            },
        }
    }

    /// Sets the session permission to `requested` when the active space's default allows it.
    /// Without an active space, or when the default does not allow it, nothing changes and
    /// the error says why.
    pub fn request_session_permission(
        &mut self,
        active_space: Option<&KnowledgeSpace>,
        requested: PermissionMode,
    ) -> (r: Result<(), AppError>)
        ensures
            final(self).active_space_id == old(self).active_space_id,
            final(self).active_scope == old(self).active_scope,
            final(self).messages == old(self).messages,
            active_space is None ==> (r matches Err(AppError::Storage(m)) && m@ == "找不到当前知识库"@),
            active_space is None ==> final(self).session_permission == old(self).session_permission,
            active_space matches Some(space) ==> {
                if session_permission_allowed(space.default_permission, requested) {
                    r is Ok && final(self).session_permission == requested
                } else {
                    &&& (r matches Err(AppError::PermissionDenied(m)) && m@ == "当前文件夹默认权限不允许这样临时升权"@)
                    &&& final(self).session_permission == old(self).session_permission
                }
            },
    {
        match active_space {
            None => Err(AppError::Storage(string_of(chars_of("找不到当前知识库").as_slice()))),
            Some(space) => {
                if !can_request_session_permission(&space.default_permission, &requested) {
                    return Err(
                        AppError::PermissionDenied(
                            string_of(chars_of("当前文件夹默认权限不允许这样临时升权").as_slice()),
                        ),
                    );
                }
                self.session_permission = requested;
                Ok(())
            },
        }
    }

    /// After a space's default permission changed to `new_default`: a session permission the
    /// new default no longer allows is lowered to it.
    pub fn limit_session_permission(&mut self, new_default: PermissionMode)
        ensures
            final(self).active_space_id == old(self).active_space_id,
            final(self).active_scope == old(self).active_scope,
            final(self).messages == old(self).messages,
            final(self).session_permission == resolved_permission(new_default, old(self).session_permission),
    {
        if !can_request_session_permission(&new_default, &self.session_permission) {
            self.session_permission = new_default;
        }
    }

    /// Appends a chat message with id `msg-` followed by `unique_id`, keeping only the most
    /// recent `MAX_CHAT_MESSAGES` messages.
    pub fn push_chat_message(&mut self, role: ChatRole, content: String, unique_id: &str)
        ensures
            final(self).active_space_id == old(self).active_space_id,
            final(self).active_scope == old(self).active_scope,
            final(self).session_permission == old(self).session_permission,
            final(self).messages@ == keep_last(
                old(self).messages@.push(final(self).messages@.last()),
                MAX_CHAT_MESSAGES as nat,
            ),
            final(self).messages@.last().id@ == "msg-"@ + unique_id@,
            final(self).messages@.last().role == role,
            final(self).messages@.last().content == content,
            final(self).messages@.last().sources@.len() == 0,
    {
        let mut id: Vec<char> = Vec::new();
        push_str(&mut id, "msg-");
        push_str(&mut id, unique_id);
        let message = ChatMessage { id: string_of(id.as_slice()), role, content, sources: Vec::new() };
        let ghost pushed = self.messages@.push(message);
        self.messages.push(message);
        if self.messages.len() > MAX_CHAT_MESSAGES {
            let overflow = self.messages.len() - MAX_CHAT_MESSAGES;
            let kept = self.messages.split_off(overflow);
            self.messages = kept;
            assert(self.messages@ =~= pushed.skip(overflow as int));
        }
    }

}

/// The title of the empty block preview.
pub open spec fn empty_preview_title(has_files: bool) -> Seq<char> {
    if has_files {
        "知识块等待解析"@
    } else {
        "暂无知识块"@
    }
}

/// The text of the empty block preview.
pub open spec fn empty_preview_excerpt(has_files: bool, has_spaces: bool) -> Seq<char> {
    if has_files {
        "文件元数据已进入本地数据库，点击建索引/摘要后会生成可检索的知识块。"@
    } else if has_spaces {
        "点击扫描后，支持的文件会先进入本地元数据索引。"@
    } else {
        "请先添加一个真实文件夹作为知识库。"@
    }
}

/// The content of the ready message shown before any chat.
pub open spec fn ready_message(has_spaces: bool) -> Seq<char> {
    if has_spaces {
        "当前已使用本地 SQLite 读取真实知识库状态。"@
    } else {
        "请点击新建选择一个真实文件夹。"@
    }
}

/// A text made of the characters of a literal.
fn text(value: &str) -> (r: String)
    ensures
        r@ == value@,
{
    string_of(chars_of(value).as_slice())
}

/// The snapshot shown to the user. The block preview shows the latest block, or, without
/// one, a placeholder that says what to do next (add a folder, scan it, or index it) and
/// names the first file; the chat shows the messages, or a ready message when there are none.
pub fn build_snapshot(
    spaces: Vec<KnowledgeSpace>,
    active_space_id: String,
    active_scope: ChatScope,
    session_permission: PermissionMode,
    files: Vec<KnowledgeFile>,
    parse_jobs: Vec<ParseJobSummary>,
    latest_block: Option<KnowledgeBlockSearchHit>,
    messages: Vec<ChatMessage>,
) -> (r: WorkbenchSnapshot)
    ensures
        r.spaces == spaces,
        r.active_space_id == active_space_id,
        r.active_scope == active_scope,
        r.session_permission == session_permission,
        r.files == files,
        r.parse_jobs == parse_jobs,
        latest_block matches Some(b) ==> {
            &&& r.block_preview.id == b.id
            &&& r.block_preview.title == b.title
            &&& r.block_preview.excerpt == b.excerpt
            &&& r.block_preview.source_file_name == b.source_file_name
            &&& r.block_preview.source_locator == b.source_locator
        },
        latest_block is None ==> {
            &&& r.block_preview.id@ == "block-empty"@
            &&& r.block_preview.title@ == empty_preview_title(files@.len() > 0)
            &&& r.block_preview.excerpt@ == empty_preview_excerpt(files@.len() > 0, spaces@.len() > 0)
            &&& r.block_preview.source_file_name@ == if files@.len() > 0 {
                files@[0].name@
            } else {
                "暂无来源文件"@
            }
            &&& r.block_preview.source_locator@.len() == 0
        },
        r.table_preview.id@ == "table-empty"@,
        r.table_preview.title@ == "表格理解等待接入"@,
        r.table_preview.description@ == "本阶段先完成文件扫描入库，表格结构理解将在后续解析阶段接入。"@,
        messages@.len() > 0 ==> r.messages == messages,
        messages@.len() == 0 ==> {
            &&& r.messages@.len() == 1
            &&& r.messages@[0].id@ == "msg-system-ready"@
            &&& r.messages@[0].role == ChatRole::System
            &&& r.messages@[0].content@ == ready_message(spaces@.len() > 0)
            &&& r.messages@[0].sources@.len() == 0
        },
        r.pending_action is None,
{
    let has_spaces = spaces.len() > 0;
    let has_files = files.len() > 0;
    let block_preview = match latest_block {
        Some(block) => KnowledgeBlockPreview {
            id: block.id,
            title: block.title,
            excerpt: block.excerpt,
            source_file_name: block.source_file_name,
            source_locator: block.source_locator,
        },
        None => {
            let source_file_name = if has_files {
                files[0].name.clone()
            } else {
                text("暂无来源文件")
            };
            let title = if has_files {
                text("知识块等待解析")
            } else {
                text("暂无知识块")
            };
            let excerpt = if has_files {
                text("文件元数据已进入本地数据库，点击建索引/摘要后会生成可检索的知识块。")
            } else if has_spaces {
                text("点击扫描后，支持的文件会先进入本地元数据索引。")
            } else {
                text("请先添加一个真实文件夹作为知识库。")
            };
            KnowledgeBlockPreview {
                id: text("block-empty"),
                title,
                excerpt,
                source_file_name,
                source_locator: String::new(),
            }
        },
    };
    let shown_messages = if messages.len() == 0 {
        let content = if has_spaces {
            text("当前已使用本地 SQLite 读取真实知识库状态。")
        } else {
            text("请点击新建选择一个真实文件夹。")
        };
        let mut ready: Vec<ChatMessage> = Vec::new();
        ready.push(
            ChatMessage { id: text("msg-system-ready"), role: ChatRole::System, content, sources: Vec::new() },
        );
        ready
    } else {
        messages
    };
    WorkbenchSnapshot {
        spaces,
        active_space_id,
        active_scope,
        session_permission,
        files,
        parse_jobs,
        block_preview,
        table_preview: TableInsightPreview {
            id: text("table-empty"),
            title: text("表格理解等待接入"),
            description: text("本阶段先完成文件扫描入库，表格结构理解将在后续解析阶段接入。"),
        },
        messages: shown_messages,
        pending_action: None,
    }
}

/// The message recorded after indexing a space.
pub open spec fn index_message(indexed: nat, failed: nat) -> Seq<char> {
    "索引/摘要完成：成功 "@ + decimal(indexed) + " 个，失败 "@ + decimal(failed) + " 个。"@
}

/// The message recorded after indexing a space: how many files were indexed and how many
/// failed.
pub fn index_summary_message(indexed: u32, failed: u32) -> (r: String)
    ensures
        r@ == index_message(indexed as nat, failed as nat),
{
    let mut out: Vec<char> = Vec::new();
    push_str(&mut out, "索引/摘要完成：成功 ");
    push_chars(&mut out, decimal_chars(indexed as u64).as_slice());
    push_str(&mut out, " 个，失败 ");
    push_chars(&mut out, decimal_chars(failed as u64).as_slice());
    push_str(&mut out, " 个。");
    assert(out@ =~= index_message(indexed as nat, failed as nat));
    string_of(out.as_slice())
}

/// The question asked of the assistant, trimmed; an empty question is refused.
pub fn prepare_question(question: &str) -> (r: Result<String, AppError>)
    ensures
        trimmed(question@).len() == 0 ==> (r matches Err(AppError::Storage(m)) && m@ == "请输入问题"@),
        trimmed(question@).len() > 0 ==> (r matches Ok(q) && q@ == trimmed(question@)),
{
    let q = trim(question);
    if chars_of(q.as_str()).len() == 0 {
        Err(AppError::Storage(text("请输入问题")))
    } else {
        Ok(q)
    }
}

/// Why a folder cannot become a knowledge space: an empty path, a path that does not exist,
/// or one that is not a folder (checked in that order).
pub fn validate_folder_path(path_is_empty: bool, exists: bool, is_dir: bool) -> (r: Result<(), AppError>)
    ensures
        path_is_empty ==> (r matches Err(AppError::Filesystem(m)) && m@ == "请选择有效文件夹"@),
        !path_is_empty && !exists ==> (r matches Err(AppError::Filesystem(m)) && m@ == "文件夹不存在"@),
        !path_is_empty && exists && !is_dir ==> (r matches Err(AppError::Filesystem(m)) && m@
            == "请选择文件夹而不是文件"@),
        !path_is_empty && exists && is_dir ==> r is Ok,
{
    if path_is_empty {
        return Err(AppError::Filesystem(text("请选择有效文件夹")));
    }
    if !exists {
        return Err(AppError::Filesystem(text("文件夹不存在")));
    }
    if !is_dir {
        return Err(AppError::Filesystem(text("请选择文件夹而不是文件")));
    }
    Ok(())
}

/// After resolving, the session permission never exceeds the space's default, and resolving
/// again changes nothing.
pub proof fn law_resolved_permission_within_default(folder_default: PermissionMode, current: PermissionMode)
    ensures
        session_permission_allowed(folder_default, resolved_permission(folder_default, current)),
        resolved_permission(folder_default, resolved_permission(folder_default, current))
            == resolved_permission(folder_default, current),
{
}

/// The active space is always one of the listed spaces, and there is none only when no
/// space is listed.
pub proof fn law_active_space_is_listed(current: Option<String>, spaces: Seq<KnowledgeSpace>)
    ensures
        resolved_space(current, spaces) matches Some(id) ==> space_listed(spaces, id@),
        resolved_space(current, spaces) is None ==> spaces.len() == 0,
{
    if spaces.len() > 0 {
        assert(spaces[0].id@ == spaces[0].id@);
    }
}

/// The chat history never holds more than `MAX_CHAT_MESSAGES` messages, and a message just
/// pushed is the last one kept.
pub proof fn law_chat_history_bounded(messages: Seq<ChatMessage>, message: ChatMessage)
    ensures
        keep_last(messages.push(message), MAX_CHAT_MESSAGES as nat).len() <= MAX_CHAT_MESSAGES,
        keep_last(messages.push(message), MAX_CHAT_MESSAGES as nat).last() == message,
{
}

} // verus!
