//! The assistant: the context handed to the chat model, the answer given from local evidence
//! alone, and the decisions around a chat-completion call (system prompt, endpoint, retries).
use vstd::prelude::*;

use crate::text::chars_eq;
use crate::text::chars_of;
use crate::text::decimal;
use crate::text::decimal_chars;
use crate::text::first_chars;
use crate::text::has_prefix;
use crate::text::push_chars;
use crate::text::push_str;
use crate::text::string_of;
use crate::text::take_chars_of;
use crate::models::KnowledgeBlockSearchHit;

verus! {

/// The most characters of search context handed to the chat model.
pub const MAX_CONTEXT_CHARS: usize = 4000;

/// How many times a chat completion is attempted before giving up.
pub const MAX_CHAT_ATTEMPTS: u32 = 3;

/// The label shown for a kind of source.
pub open spec fn kind_label(source_kind: Seq<char>) -> Seq<char> {
    if source_kind == "ocr"@ {
        "本地 OCR"@
    } else if source_kind == "table"@ {
        "表格洞察"@
    } else if source_kind == "markdown_note"@ {
        "Markdown 笔记"@
    } else {
        "原始文件"@
    }
}

/// The label shown for a kind of source: OCR, table insight, Markdown note or original file.
pub fn source_kind_label(source_kind: &str) -> (r: &'static str)
    ensures
        r@ == kind_label(source_kind@),
{
    let kind = chars_of(source_kind);
    if chars_eq(kind.as_slice(), chars_of("ocr").as_slice()) {
        "本地 OCR"
    } else if chars_eq(kind.as_slice(), chars_of("table").as_slice()) {
        "表格洞察"
    } else if chars_eq(kind.as_slice(), chars_of("markdown_note").as_slice()) {
        "Markdown 笔记"
    } else {
        "原始文件"
    }
}

/// The context entry of the hit at `index` (numbered from one).
pub open spec fn context_entry(index: nat, hit: KnowledgeBlockSearchHit) -> Seq<char> {
    "[来源 "@ + decimal(index + 1) + "]\n来源类型："@ + kind_label(hit.source_kind@)
        + "\n来源文件："@ + hit.source_file_name@ + "\n标题："@ + hit.title@ + "\n内容："@
        + hit.excerpt@ + "\n\n"@
}

/// The context built from the first `n` hits: each entry is added while the context is still
/// shorter than the limit.
pub open spec fn context_of(hits: Seq<KnowledgeBlockSearchHit>, n: nat) -> Seq<char>
    decreases n,
{
    if n == 0 {
        seq![]
    } else {
        let before = context_of(hits, (n - 1) as nat);
        if before.len() >= MAX_CONTEXT_CHARS {
            before
        } else {
            before + context_entry((n - 1) as nat, hits[n - 1])
        }
    }
}

/// Appends the characters of a hit's context entry.
fn push_context_entry(out: &mut Vec<char>, index: usize, hit: &KnowledgeBlockSearchHit)
    requires
        index < usize::MAX,
    ensures
        final(out)@ == old(out)@ + context_entry(index as nat, *hit),
{
    let ghost start = out@;
    push_str(out, "[来源 ");
    let number = decimal_chars((index + 1) as u64);
    push_chars(out, number.as_slice());
    push_str(out, "]\n来源类型：");
    push_str(out, source_kind_label(hit.source_kind.as_str()));
    push_str(out, "\n来源文件：");
    push_str(out, hit.source_file_name.as_str());
    push_str(out, "\n标题：");
    push_str(out, hit.title.as_str());
    push_str(out, "\n内容：");
    push_str(out, hit.excerpt.as_str());
    push_str(out, "\n\n");
    assert(out@ =~= start + context_entry(index as nat, *hit));
}

/// The search context handed to the chat model: one numbered entry per hit with its kind of
/// source, file, title and excerpt, no entry started once the limit is reached, and the whole
/// cut to `MAX_CONTEXT_CHARS` characters.
pub fn build_context(hits: &[KnowledgeBlockSearchHit]) -> (r: String)
    ensures
        r@ == first_chars(context_of(hits@, hits@.len()), MAX_CONTEXT_CHARS as int),
{
    let mut context: Vec<char> = Vec::new();
    let mut i: usize = 0;
    while i < hits.len()
        invariant
            i <= hits.len(),
            context@ == context_of(hits@, i as nat),
        decreases hits.len() - i,
    {
        if context.len() < MAX_CONTEXT_CHARS {
            push_context_entry(&mut context, i, &hits[i]);
        }
        i = i + 1;
    }
    let cut = take_chars_of(context.as_slice(), MAX_CONTEXT_CHARS);
    string_of(cut.as_slice())
}

/// The answer given when no local evidence was found for `question`.
pub open spec fn no_evidence_answer(question: Seq<char>) -> Seq<char> {
    "没有足够本地证据回答“"@ + question + "”。我不会编造答案，请先扫描并建索引/摘要后再提问。"@
}

/// The evidence line of the hit at `index` (numbered from one): its kind of source and excerpt.
pub open spec fn evidence_line(index: nat, hit: KnowledgeBlockSearchHit) -> Seq<char> {
    decimal(index + 1) + ". ["@ + kind_label(hit.source_kind@) + "] "@ + hit.excerpt@ + "\n"@
}

/// The evidence lines of the first `n` hits.
pub open spec fn evidence_lines(hits: Seq<KnowledgeBlockSearchHit>, n: nat) -> Seq<char>
    decreases n,
{
    if n == 0 {
        seq![]
    } else {
        evidence_lines(hits, (n - 1) as nat) + evidence_line((n - 1) as nat, hits[n - 1])
    }
}

/// How a hit is named among the sources: its file and, in full-width brackets, its kind.
pub open spec fn source_entry(hit: KnowledgeBlockSearchHit) -> Seq<char> {
    hit.source_file_name@ + "（"@ + kind_label(hit.source_kind@) + "）"@
}

/// The sources of the first `n` hits, separated by `、`.
pub open spec fn source_list(hits: Seq<KnowledgeBlockSearchHit>, n: nat) -> Seq<char>
    decreases n,
{
    if n == 0 {
        seq![]
    } else if n == 1 {
        source_entry(hits[0])
    } else {
        source_list(hits, (n - 1) as nat) + "、"@ + source_entry(hits[n - 1])
    }
}

/// The answer built from local evidence alone.
pub open spec fn local_answer(question: Seq<char>, hits: Seq<KnowledgeBlockSearchHit>) -> Seq<char> {
    if hits.len() == 0 {
        no_evidence_answer(question)
    } else {
        "根据本地知识库中与“"@ + question + "”相关的内容：\n"@ + evidence_lines(hits, hits.len())
            + "\n来源："@ + source_list(hits, hits.len())
    }
}

/// Answers `question` from the search hits alone, without a chat model: each hit's excerpt
/// labelled with its kind of source, then the list of source files. With no hits it says
/// that there is not enough local evidence and that nothing will be made up.
pub fn build_local_answer(question: &str, hits: &[KnowledgeBlockSearchHit]) -> (r: String)
    ensures
        r@ == local_answer(question@, hits@),
{
    let mut out: Vec<char> = Vec::new();
    if hits.len() == 0 {
        push_str(&mut out, "没有足够本地证据回答“");
        push_str(&mut out, question);
        push_str(&mut out, "”。我不会编造答案，请先扫描并建索引/摘要后再提问。");
        assert(out@ =~= no_evidence_answer(question@));
        return string_of(out.as_slice());
    }
    push_str(&mut out, "根据本地知识库中与“");
    push_str(&mut out, question);
    push_str(&mut out, "”相关的内容：\n");
    let ghost header = out@;
    let mut i: usize = 0;
    while i < hits.len()
        invariant
            i <= hits.len(),
            out@ == header + evidence_lines(hits@, i as nat),
        decreases hits.len() - i,
    {
        let ghost before = out@;
        let number = decimal_chars((i + 1) as u64);
        push_chars(&mut out, number.as_slice());
        push_str(&mut out, ". [");
        push_str(&mut out, source_kind_label(hits[i].source_kind.as_str()));
        push_str(&mut out, "] ");
        push_str(&mut out, hits[i].excerpt.as_str());
        push_str(&mut out, "\n");
        assert(out@ =~= before + evidence_line(i as nat, hits@[i as int]));
        i = i + 1;
        assert(out@ =~= header + evidence_lines(hits@, i as nat));
    }
    push_str(&mut out, "\n来源：");
    let ghost middle = out@;
    let mut j: usize = 0;
    while j < hits.len()
        invariant
            j <= hits.len(),
            hits.len() > 0,
            out@ == middle + source_list(hits@, j as nat),
        decreases hits.len() - j,
    {
        let ghost before = out@;
        if j > 0 {
            push_str(&mut out, "、");
        }
        push_str(&mut out, hits[j].source_file_name.as_str());
        push_str(&mut out, "（");
        push_str(&mut out, source_kind_label(hits[j].source_kind.as_str()));
        push_str(&mut out, "）");
        j = j + 1;
        assert(out@ =~= middle + source_list(hits@, j as nat));
    }
    assert(out@ =~= local_answer(question@, hits@));
    string_of(out.as_slice())
}

/// A function call that the chat model asks for.
#[derive(Debug, Clone)]
pub struct ToolCallFunction {
    pub name: String,
    pub arguments: String,
}

/// A tool call in a chat message.
#[derive(Debug, Clone)]
pub struct ToolCall {
    pub id: String,
    pub tool_type: String,
    pub function: ToolCallFunction,
}

/// A message sent to the chat model.
#[derive(Debug, Clone)]
pub struct ChatMessagePayload {
    pub role: String,
    pub content: Option<String>,
    pub name: Option<String>,
    pub tool_calls: Option<Vec<ToolCall>>,
    pub tool_call_id: Option<String>,
}

/// The message of one choice of a chat completion.
#[derive(Debug, Clone)]
pub struct ChatChoiceMessage {
    pub content: Option<String>,
    pub tool_calls: Option<Vec<ToolCall>>,
}

/// One choice of a chat completion.
#[derive(Debug)]
pub struct ChatChoice {
    pub message: ChatChoiceMessage,
}

/// The body of a chat-completion response.
#[derive(Debug)]
pub struct ChatCompletionResponse {
    pub choices: Vec<ChatChoice>,
}

/// The instruction that keeps the assistant to the local index.
pub open spec fn base_system_prompt() -> Seq<char> {
    "你是本地优先桌面知识库助手。只能基于给定本地索引内容回答；回答要简洁，不要编造来源，并在末尾列出用到的来源编号和来源文件。如果需要搜索信息请使用提供的工具。"@
}

/// The system prompt, with the requested tone appended when there is one.
pub open spec fn system_prompt_text(tone: Option<Seq<char>>) -> Seq<char> {
    match tone {
        Some(t) => base_system_prompt() + " 请保持"@ + t + "的语气。"@,
        None => base_system_prompt(),
    }
}

/// The view of an optional text.
pub open spec fn opt_view(value: Option<&str>) -> Option<Seq<char>> {
    match value {
        Some(t) => Some(t@),
        None => None,
    }
}

/// The system prompt for the given tone.
pub fn system_prompt(tone: Option<&str>) -> (r: String)
    ensures
        r@ == system_prompt_text(opt_view(tone)),
{
    let mut out: Vec<char> = Vec::new();
    push_str(&mut out, "你是本地优先桌面知识库助手。只能基于给定本地索引内容回答；回答要简洁，不要编造来源，并在末尾列出用到的来源编号和来源文件。如果需要搜索信息请使用提供的工具。");
    match tone {
        Some(t) => {
            push_str(&mut out, " 请保持");
            push_str(&mut out, t);
            push_str(&mut out, "的语气。");
        },
        None => {},
    }
    assert(out@ =~= system_prompt_text(opt_view(tone)));
    string_of(out.as_slice())
}

/// Whether some message has the `system` role.
pub open spec fn has_system_message(messages: Seq<ChatMessagePayload>) -> bool {
    exists|i: int| 0 <= i < messages.len() && (#[trigger] messages[i]).role@ == "system"@
}

/// Whether a message is the system prompt for `tone`.
pub open spec fn is_system_prompt(message: ChatMessagePayload, tone: Option<Seq<char>>) -> bool {
    &&& message.role@ == "system"@
    &&& message.content matches Some(c) && c@ == system_prompt_text(tone)
    &&& message.name is None
    &&& message.tool_calls is None
    &&& message.tool_call_id is None
}

/// The messages sent for a chat completion: unchanged when one of them already has the
/// `system` role, else preceded by the system prompt for `tone`.
pub fn with_system_prompt(messages: Vec<ChatMessagePayload>, tone: Option<&str>) -> (r: Vec<ChatMessagePayload>)
    ensures
        has_system_message(messages@) ==> r@ == messages@,
        !has_system_message(messages@) ==> {
            &&& r@.len() == messages@.len() + 1
            &&& is_system_prompt(r@[0], opt_view(tone))
            &&& r@.drop_first() == messages@
        },
{
    let system = chars_of("system");
    let mut i: usize = 0;
    while i < messages.len()
        invariant
            i <= messages.len(),
            system@ == "system"@,
            forall|k: int| 0 <= k < i ==> (#[trigger] messages@[k]).role@ != "system"@,
        decreases messages.len() - i,
    {
        let role = chars_of(messages[i].role.as_str());
        if chars_eq(role.as_slice(), system.as_slice()) {
            return messages;
        }
        i = i + 1;
    }
    let prompt = ChatMessagePayload {
        role: string_of(system.as_slice()),
        content: Some(system_prompt(tone)),
        name: None,
        tool_calls: None,
        tool_call_id: None,
    };
    let mut out: Vec<ChatMessagePayload> = Vec::new();
    out.push(prompt);
    let mut rest = messages;
    let ghost original = rest@;
    out.append(&mut rest);
    assert(out@.drop_first() =~= original);
    out
}

/// The chat-completions endpoint under `base_url`, with trailing slashes of the base removed.
pub open spec fn chat_completions_url_text(base_url: Seq<char>) -> Seq<char> {
    trim_trailing_slashes(base_url) + "/chat/completions"@
}

/// `s` without the `/` characters at its end.
pub open spec fn trim_trailing_slashes(s: Seq<char>) -> Seq<char>
    decreases s.len(),
{
    if s.len() > 0 && s.last() == '/' {
        trim_trailing_slashes(s.drop_last())
    } else {
        s
    }
}

/// The chat-completions endpoint under `base_url`.
pub fn chat_completions_url(base_url: &str) -> (r: String)
    ensures
        r@ == chat_completions_url_text(base_url@),
{
    let chars = chars_of(base_url);
    let mut end: usize = chars.len();
    assert(chars@.take(end as int) =~= chars@);
    while end > 0 && chars[end - 1] == '/'
        invariant
            end <= chars.len(),
            trim_trailing_slashes(chars@.take(end as int)) == trim_trailing_slashes(base_url@),
            chars@ == base_url@,
        decreases end,
    {
        assert(chars@.take(end as int).drop_last() =~= chars@.take(end - 1));
        end = end - 1;
    }
    assert(chars@.take(end as int).len() == 0 || chars@.take(end as int).last() != '/');
    let mut out = take_chars_of(chars.as_slice(), end);
    assert(out@ =~= chars@.take(end as int));
    push_str(&mut out, "/chat/completions");
    string_of(out.as_slice())
}

/// The message of the first choice of a chat-completion response, if it has one.
pub fn first_choice_message(response: ChatCompletionResponse) -> (r: Option<ChatChoiceMessage>)
    ensures
        response.choices@.len() == 0 ==> r is None,
        response.choices@.len() > 0 ==> r == Some(response.choices@[0].message),
{
    let mut choices = response.choices;
    if choices.len() == 0 {
        None
    } else {
        let first = choices.remove(0);
        Some(first.message)
    }
}

/// The state of the retries of one chat completion: how many attempts failed so far and the
/// wait before the next one.
pub struct ChatRetry {
    pub attempts: u32,
    pub delay_secs: u64,
}

/// `2` to the power `n`.
pub open spec fn pow2(n: nat) -> nat
    decreases n,
{
    if n == 0 {
        1
    } else {
        2 * pow2((n - 1) as nat)
    }
}

impl ChatRetry {
    /// The retry state is consistent: at most `MAX_CHAT_ATTEMPTS` failed attempts, and the
    /// wait doubles with each of them, starting at one second.
    pub open spec fn wf(self) -> bool {
        &&& self.attempts <= MAX_CHAT_ATTEMPTS
        &&& self.delay_secs == pow2(self.attempts as nat)
    }

    /// No attempt made yet; the first wait is one second.
    pub fn new() -> (r: ChatRetry)
        ensures
            r.wf(),
            r.attempts == 0,
            r.delay_secs == 1,
    {
        ChatRetry { attempts: 0, delay_secs: 1 }
    }

    /// Whether another attempt is allowed.
    pub fn can_attempt(&self) -> (r: bool)
        ensures
            r == (self.attempts < MAX_CHAT_ATTEMPTS),
    {
        self.attempts < MAX_CHAT_ATTEMPTS
    }

    /// Records a failed attempt and says how long to wait before the next one: `None` once
    /// the attempts are used up.
    pub fn record_failure(&mut self) -> (wait: Option<u64>)
        requires
            old(self).wf(),
            old(self).attempts < MAX_CHAT_ATTEMPTS,
        ensures
            final(self).wf(),
            final(self).attempts == old(self).attempts + 1,
            final(self).attempts < MAX_CHAT_ATTEMPTS ==> wait == Some(old(self).delay_secs),
            final(self).attempts == MAX_CHAT_ATTEMPTS ==> wait is None,
    {
        proof {
            reveal_with_fuel(pow2, 4);
        }
        self.attempts = self.attempts + 1;
        if self.attempts < MAX_CHAT_ATTEMPTS {
            let wait = self.delay_secs;
            self.delay_secs = self.delay_secs * 2;
            Some(wait)
        } else {
            self.delay_secs = self.delay_secs * 2;
            None
        }
    }
}



/// The answer shown for a question: the chat model's reply when it holds text that is not
/// blank, else the answer built from the local hits.
pub fn final_answer(reply: Option<ChatChoiceMessage>, question: &str, hits: &[KnowledgeBlockSearchHit]) -> (r: String)
    ensures
        (reply matches Some(m) && (m.content matches Some(c) && !crate::runtime::is_blank(c@))) ==> r
            == reply->0.content->0,
        !(reply matches Some(m) && (m.content matches Some(c) && !crate::runtime::is_blank(c@))) ==> r@
            == local_answer(question@, hits@),
{
    match reply {
        Some(message) => match message.content {
            Some(content) => {
                if crate::runtime::blank(content.as_str()) {
                    build_local_answer(question, hits)
                } else {
                    content
                }
            },
            None => build_local_answer(question, hits),
        },
        None => build_local_answer(question, hits),
    }
}

/// Whether `text` occurs in `s`.
pub open spec fn occurs_in(s: Seq<char>, text: Seq<char>) -> bool {
    exists|i: int| 0 <= i && i + text.len() <= s.len() && #[trigger] s.subrange(i, i + text.len()) == text
}

/// Text occurring in `s` occurs in `a + s + b`.
proof fn lemma_occurs_in_middle(a: Seq<char>, s: Seq<char>, b: Seq<char>, text: Seq<char>)
    requires
        occurs_in(s, text),
    ensures
        occurs_in(a + s + b, text),
{
    let i = choose|i: int| 0 <= i && i + text.len() <= s.len() && #[trigger] s.subrange(i, i + text.len()) == text;
    let whole = a + s + b;
    let j = a.len() + i;
    assert(whole.subrange(j, j + text.len()) =~= s.subrange(i, i + text.len()));
}

/// The source list of the first `n` hits names each of them.
proof fn lemma_source_list_names(hits: Seq<KnowledgeBlockSearchHit>, n: nat, k: int)
    requires
        0 <= k < n <= hits.len(),
    ensures
        occurs_in(source_list(hits, n), source_entry(hits[k])),
    decreases n,
{
    let entry = source_entry(hits[k]);
    let list = source_list(hits, n);
    if n == 1 {
        let i: int = 0;
        assert(list.subrange(i, i + entry.len()) =~= entry);
    } else if k < n - 1 {
        lemma_source_list_names(hits, (n - 1) as nat, k);
        lemma_occurs_in_middle(seq![], source_list(hits, (n - 1) as nat), "、"@ + source_entry(hits[n - 1]), entry);
        assert(seq![] + source_list(hits, (n - 1) as nat) + ("、"@ + source_entry(hits[n - 1])) =~= source_list(hits, n));
    } else {
        let prefix = source_list(hits, (n - 1) as nat) + "、"@;
        assert(list =~= prefix + entry);
        let i: int = prefix.len() as int;
        assert(list.subrange(i, i + entry.len()) =~= entry);
    }
}

/// The local answer names the file and kind of every hit it was built from, and without
/// hits it says that there is not enough local evidence.
pub proof fn law_local_answer_names_every_source(question: Seq<char>, hits: Seq<KnowledgeBlockSearchHit>)
    ensures
        hits.len() == 0 ==> local_answer(question, hits) == no_evidence_answer(question),
        forall|k: int| 0 <= k < hits.len() ==> occurs_in(local_answer(question, hits), #[trigger] source_entry(hits[k])),
{
    assert forall|k: int| 0 <= k < hits.len() implies occurs_in(local_answer(question, hits), #[trigger] source_entry(hits[k])) by {
        let head = "根据本地知识库中与“"@ + question + "”相关的内容：\n"@ + evidence_lines(hits, hits.len()) + "\n来源："@;
        lemma_source_list_names(hits, hits.len(), k);
        lemma_occurs_in_middle(head, source_list(hits, hits.len()), seq![], source_entry(hits[k]));
        assert(head + source_list(hits, hits.len()) + seq![] =~= local_answer(question, hits));
    }
}

/// Each hit's context entry carries its own number: while the context is below the limit,
/// the entry of the hit at index `k` is put after the earlier entries, which stay as they
/// were, and begins with `[来源 k+1]`; hits at different indexes get different numbers.
pub proof fn law_context_numbers_every_source(hits: Seq<KnowledgeBlockSearchHit>, k: nat)
    requires
        k < hits.len(),
        context_of(hits, k).len() < MAX_CONTEXT_CHARS,
    ensures
        has_prefix(context_of(hits, k + 1), context_of(hits, k)),
        has_prefix(
            context_of(hits, k + 1).skip(context_of(hits, k).len() as int),
            "[来源 "@ + decimal(k + 1) + "]"@,
        ),
{
    let before = context_of(hits, k);
    let entry = context_entry(k, hits[k as int]);
    assert(context_of(hits, k + 1) == before + entry);
    assert((before + entry).take(before.len() as int) =~= before);
    assert((before + entry).skip(before.len() as int) =~= entry);
    let head = "[来源 "@ + decimal(k + 1);
    let rest = "]\n来源类型："@ + kind_label(hits[k as int].source_kind@) + "\n来源文件："@
        + hits[k as int].source_file_name@ + "\n标题："@ + hits[k as int].title@ + "\n内容："@
        + hits[k as int].excerpt@ + "\n\n"@;
    assert(entry =~= head + rest);
    assert(rest.len() >= 1 && rest[0] == ']' && "]"@ =~= seq![']']) by {
        reveal_strlit("]\n来源类型：");
        reveal_strlit("]");
        assert(rest[0] == "]\n来源类型："@[0]);
    }
    assert((head + rest).take((head.len() + 1) as int) =~= head + "]"@);
}

} // verus!
