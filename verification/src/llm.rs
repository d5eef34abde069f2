//! The normalized LLM model shared by both gateways (messages, tool calls,
//! responses), and the decisions each gateway adapter makes: how a message is
//! laid out for the wire, which extended-thinking modes are tried, when an
//! error means a mode was rejected, and how streamed deltas accumulate.

use vstd::prelude::*;

use crate::text::{contains, contains_str, lowercase, owned, push_str, to_lowercase, views};

verus! {

/// Which gateway an agent uses.
#[derive(Debug, Clone, Copy, PartialEq, Eq, Structural)]
pub enum LlmGateway {
    OpenAi,
    Anthropic,
}

/// The gateway's name as written in configuration files.
pub open spec fn gateway_name(g: LlmGateway) -> Seq<char> {
    match g {
        LlmGateway::OpenAi => "openai"@,
        LlmGateway::Anthropic => "anthropic"@,
    }
}

impl LlmGateway {
    /// The gateway's lower-case name (`openai` / `anthropic`).
    pub fn name(&self) -> (r: &'static str)
        ensures
            r@ == gateway_name(*self),
    {
        match self {
            LlmGateway::OpenAi => "openai",
            LlmGateway::Anthropic => "anthropic",
        }
    }
}

impl Default for LlmGateway {
    fn default() -> (r: Self)
        ensures
            r == LlmGateway::OpenAi,
    {
        LlmGateway::OpenAi
    }
}

/// An image attached to a user message.
///
/// Either `url` (the OpenAI gateway accepts remote URLs) or `base64`
/// (with `media_type`, required by the Anthropic gateway) must be present.
#[derive(Debug, Clone)]
pub struct ImagePart {
    pub url: Option<String>,
    pub base64: Option<String>,
    pub media_type: Option<String>,
}

impl Default for ImagePart {
    fn default() -> (r: Self)
        ensures
            r.url is None,
            r.base64 is None,
            r.media_type is None,
    {
        ImagePart { url: None, base64: None, media_type: None }
    }
}

impl ImagePart {
    /// An image given by URL.
    pub fn from_url(url: &str) -> (r: Self)
        ensures
            r.url matches Some(u) && u@ == url@,
            r.base64 is None,
            r.media_type is None,
    {
        ImagePart { url: Some(owned(url)), base64: None, media_type: None }
    }

    /// An image given inline, base64-encoded, with its media type.
    pub fn from_base64(media_type: &str, data: &str) -> (r: Self)
        ensures
            r.url is None,
            r.base64 matches Some(b) && b@ == data@,
            r.media_type matches Some(m) && m@ == media_type@,
    {
        ImagePart { url: None, base64: Some(owned(data)), media_type: Some(owned(media_type)) }
    }

    /// Whether this image has enough information to be sent.
    pub fn is_valid(&self) -> (r: bool)
        ensures
            r == (self.url is Some || self.base64 is Some),
    {
        self.url.is_some() || self.base64.is_some()
    }
}

/// A tool call within an assistant message.
#[derive(Debug, Clone)]
pub struct MessageToolCall {
    pub id: String,
    pub name: String,
    pub arguments: String,
}

/// A single conversation message (normalized; bridges to either gateway).
#[derive(Debug, Clone)]
pub struct Message {
    pub role: String,
    pub content: String,
    pub images: Option<Vec<ImagePart>>,
    pub tool_calls: Option<Vec<MessageToolCall>>,
    pub tool_call_id: Option<String>,
    pub reasoning_content: Option<String>,
    pub thinking_signature: Option<String>,
}

/// Role names.
pub const SYSTEM: &'static str = "system";

pub const USER: &'static str = "user";

pub const ASSISTANT: &'static str = "assistant";

pub const TOOL: &'static str = "tool";

/// A message with the given role and content and nothing else.
pub open spec fn plain_message(m: Message, role: Seq<char>, content: Seq<char>) -> bool {
    &&& m.role@ == role
    &&& m.content@ == content
    &&& m.images is None
    &&& m.tool_calls is None
    &&& m.tool_call_id is None
    &&& m.reasoning_content is None
    &&& m.thinking_signature is None
}

impl Message {
    fn with_role(role: &str, content: &str) -> (r: Self)
        ensures
            plain_message(r, role@, content@),
    {
        Message {
            role: owned(role),
            content: owned(content),
            images: None,
            tool_calls: None,
            tool_call_id: None,
            reasoning_content: None,
            thinking_signature: None,
        }
    }

    /// A system message.
    pub fn system(content: &str) -> (r: Self)
        ensures
            plain_message(r, SYSTEM@, content@),
    {
        Self::with_role(SYSTEM, content)
    }

    /// A user message.
    pub fn user(content: &str) -> (r: Self)
        ensures
            plain_message(r, USER@, content@),
    {
        Self::with_role(USER, content)
    }

    /// A user message with attached images.
    pub fn user_with_images(content: &str, images: Vec<ImagePart>) -> (r: Self)
        ensures
            plain_message(Message { images: None, ..r }, USER@, content@),
            r.images == Some(images),
    {
        let mut m = Self::with_role(USER, content);
        m.images = Some(images);
        m
    }

    /// An assistant message.
    pub fn assistant(content: &str) -> (r: Self)
        ensures
            plain_message(r, ASSISTANT@, content@),
    {
        Self::with_role(ASSISTANT, content)
    }

    /// A tool-result message answering the call `tool_call_id`.
    pub fn tool(tool_call_id: &str, content: &str) -> (r: Self)
        ensures
            plain_message(Message { tool_call_id: None, ..r }, TOOL@, content@),
            r.tool_call_id matches Some(id) && id@ == tool_call_id@,
    {
        let mut m = Self::with_role(TOOL, content);
        m.tool_call_id = Some(owned(tool_call_id));
        m
    }
}

/// A normalized tool call returned by the model.
#[derive(Debug, Clone)]
pub struct ToolCall {
    pub id: String,
    pub name: String,
    pub arguments: String,
}

/// A normalized completion response.
#[derive(Debug, Clone)]
pub struct LlmResponse {
    pub text: String,
    pub tool_calls: Vec<ToolCall>,
    pub reasoning: Option<String>,
    pub finish_reason: Option<String>,
    /// Extended-thinking signature, needed to pass thinking blocks back in
    /// multi-turn conversations (stored on the assistant message).
    pub thinking_signature: Option<String>,
}

impl Default for LlmResponse {
    fn default() -> (r: Self)
        ensures
            r.text@ == Seq::<char>::empty(),
            r.tool_calls@.len() == 0,
            r.reasoning is None,
            r.finish_reason is None,
            r.thinking_signature is None,
    {
        LlmResponse {
            text: String::new(),
            tool_calls: Vec::new(),
            reasoning: None,
            finish_reason: None,
            thinking_signature: None,
        }
    }
}

/// Extended-thinking preference (Anthropic gateway).
#[derive(Debug, Clone, Copy, PartialEq, Eq, Structural)]
pub enum ThinkingPref {
    /// Request adaptive thinking (the default).
    Adaptive,
    /// Request thinking with a token budget.
    Enabled(u64),
    /// Do not request thinking.
    Disabled,
}

impl Default for ThinkingPref {
    fn default() -> (r: Self)
        ensures
            r == ThinkingPref::Adaptive,
    {
        ThinkingPref::Adaptive
    }
}

/// Streaming sink: the agent implements this to receive real-time deltas.
pub trait LlmSink {
    /// A reasoning delta (thinking tokens).
    fn on_thinking(&mut self, delta: &str);

    /// A content delta (normal text).
    fn on_text(&mut self, delta: &str);

    /// Called once when the first tool-call fragment is observed, so callers
    /// can suppress further text deltas.
    fn on_tool_call_start(&mut self) {
    }
}

/// A no-op sink for callers that only want the final response.
pub struct NullSink;

impl LlmSink for NullSink {
    fn on_thinking(&mut self, delta: &str) {
    }

    fn on_text(&mut self, delta: &str) {
    }
}

// ---------------------------------------------------------------------------
// Extended thinking
// ---------------------------------------------------------------------------

/// A thinking mode to request.
#[derive(Debug, Clone, Copy, PartialEq, Eq, Structural)]
pub enum ThinkingMode {
    /// `thinking: {type: adaptive}`.
    Adaptive,
    /// `thinking: {type: enabled, budget_tokens}`.
    Enabled(u64),
    /// No thinking field.
    Off,
}

/// Budget used when adaptive thinking falls back to a budgeted one.
pub const DEFAULT_BUDGET_TOKENS: u64 = 30000;

/// The smallest budget the API accepts.
pub const MIN_BUDGET_TOKENS: u64 = 1024;

/// The ordered modes to try for a preference.
pub open spec fn candidates(pref: ThinkingPref) -> Seq<ThinkingMode> {
    match pref {
        ThinkingPref::Disabled => seq![ThinkingMode::Off],
        ThinkingPref::Adaptive => seq![
            ThinkingMode::Adaptive,
            ThinkingMode::Enabled(DEFAULT_BUDGET_TOKENS),
            ThinkingMode::Off,
        ],
        ThinkingPref::Enabled(b) => seq![
            ThinkingMode::Enabled(if b < MIN_BUDGET_TOKENS { MIN_BUDGET_TOKENS } else { b }),
            ThinkingMode::Off,
        ],
    }
}

/// Build the ordered list of thinking modes to try for a preference: the
/// preferred one first, then weaker ones, ending without thinking.
pub fn thinking_candidates(pref: ThinkingPref) -> (r: Vec<ThinkingMode>)
    ensures
        r@ == candidates(pref),
{
    match pref {
        ThinkingPref::Disabled => vec![ThinkingMode::Off],
        ThinkingPref::Adaptive => vec![
            ThinkingMode::Adaptive,
            ThinkingMode::Enabled(DEFAULT_BUDGET_TOKENS),
            ThinkingMode::Off,
        ],
        ThinkingPref::Enabled(budget) => {
            let b = if budget < MIN_BUDGET_TOKENS {
                MIN_BUDGET_TOKENS
            } else {
                budget
            };
            vec![ThinkingMode::Enabled(b), ThinkingMode::Off]
        },
    }
}

/// Labels of the modes, as the API names them.
pub const LABEL_ADAPTIVE: &'static str = "adaptive";

pub const LABEL_ENABLED: &'static str = "enabled";

pub const LABEL_NONE: &'static str = "none";

/// The label of a mode (for the rejection detector and the per-model cache).
pub open spec fn label(m: ThinkingMode) -> Seq<char> {
    match m {
        ThinkingMode::Adaptive => LABEL_ADAPTIVE@,
        ThinkingMode::Enabled(_) => LABEL_ENABLED@,
        ThinkingMode::Off => LABEL_NONE@,
    }
}

/// A short label for a thinking mode.
pub fn thinking_label(m: ThinkingMode) -> (r: &'static str)
    ensures
        r@ == label(m),
{
    match m {
        ThinkingMode::Adaptive => LABEL_ADAPTIVE,
        ThinkingMode::Enabled(_) => LABEL_ENABLED,
        ThinkingMode::Off => LABEL_NONE,
    }
}

/// The position of the first candidate with the given label, if any.
pub open spec fn label_position(cands: Seq<ThinkingMode>, l: Seq<char>) -> Option<int> {
    if exists|i: int| 0 <= i < cands.len() && label(#[trigger] cands[i]) == l {
        Some(
            choose|i: int|
                0 <= i < cands.len() && label(#[trigger] cands[i]) == l && forall|j: int|
                    0 <= j < i ==> label(#[trigger] cands[j]) != l,
        )
    } else {
        None
    }
}

/// The candidates to try given the mode that last worked for this model:
/// from that mode on when it is one of them, else all of them.
pub open spec fn candidates_after(cands: Seq<ThinkingMode>, cached: Option<Seq<char>>) -> Seq<
    ThinkingMode,
> {
    match cached {
        Some(l) => match label_position(cands, l) {
            Some(i) => cands.skip(i),
            None => cands,
        },
        None => cands,
    }
}

/// The candidate list for a preference, honoring the label of the mode that
/// last worked for the model (modes before it were rejected already).
pub fn candidates_from_cache(pref: ThinkingPref, cached: Option<&str>) -> (r: Vec<ThinkingMode>)
    ensures
        r@ == candidates_after(candidates(pref), match cached {
            Some(c) => Some(c@),
            None => None,
        }),
{
    let cands = thinking_candidates(pref);
    match cached {
        None => cands,
        Some(c) => {
            let mut i: usize = 0;
            while i < cands.len()
                invariant
                    i <= cands.len(),
                    cached == Some(c),
                    cands@ == candidates(pref),
                    forall|j: int| 0 <= j < i ==> label(#[trigger] cands@[j]) != c@,
                decreases cands.len() - i,
            {
                if crate::text::str_eq(thinking_label(cands[i]), c) {
                    let mut out: Vec<ThinkingMode> = Vec::new();
                    let mut k = i;
                    while k < cands.len()
                        invariant
                            i <= k <= cands.len(),
                            out@ == cands@.subrange(i as int, k as int),
                            cands@ == candidates(pref),
                            label(cands@[i as int]) == c@,
                            forall|j: int| 0 <= j < i ==> label(#[trigger] cands@[j]) != c@,
                        decreases cands.len() - k,
                    {
                        out.push(cands[k]);
                        assert(out@ =~= cands@.subrange(i as int, k + 1));
                        k = k + 1;
                    }
                    proof {
                        assert(0 <= i < cands@.len() && label(cands@[i as int]) == c@ && forall|
                            j: int,
                        | 0 <= j < i ==> label(#[trigger] cands@[j]) != c@);
                        let w = choose|x: int|
                            0 <= x < cands@.len() && label(#[trigger] cands@[x]) == c@ && forall|
                                j: int,
                            | 0 <= j < x ==> label(#[trigger] cands@[j]) != c@;
                        assert(label(cands@[i as int]) == c@);
                        if w < i {
                        } else if w > i {
                            assert(label(cands@[i as int]) != c@);
                        }
                        assert(cands@.subrange(i as int, cands@.len() as int) =~= cands@.skip(
                            i as int,
                        ));
                        assert(label_position(cands@, c@) == Some(i as int));
                    }
                    return out;
                }
                i = i + 1;
            }
            cands
        },
    }
}

/// `"thinking.type.<mode>"`, as the official API names a rejected mode.
pub open spec fn quoted_mode(mode: Seq<char>) -> Seq<char> {
    QUOTE_PREFIX@ + mode + QUOTE@
}

pub const QUOTE_PREFIX: &'static str = "\"thinking.type.";

pub const QUOTE: &'static str = "\"";

pub const WORD_UNKNOWN: &'static str = "unknown";

pub const WORD_THINKING: &'static str = "thinking";

pub const WORD_NOT_SUPPORTED: &'static str = "not supported";

/// Whether an (already lower-cased) error message names a specific mode
/// other than `mode`.
pub open spec fn names_other_mode(msg: Seq<char>, mode: Seq<char>) -> bool {
    ||| (LABEL_ADAPTIVE@ != mode && contains(msg, quoted_mode(LABEL_ADAPTIVE@)))
    ||| (LABEL_ENABLED@ != mode && contains(msg, quoted_mode(LABEL_ENABLED@)))
}

/// Whether the error message says the request was rejected because the given
/// thinking mode is unsupported: it names this mode precisely; or, naming no
/// other specific mode, it says that "thinking" is "unknown" or "not supported".
pub open spec fn thinking_rejected(err: Seq<char>, mode: Seq<char>) -> bool {
    let msg = lowercase(err);
    ||| contains(msg, quoted_mode(mode))
    ||| (!names_other_mode(msg, mode) && contains(msg, WORD_THINKING@) && (contains(
        msg,
        WORD_UNKNOWN@,
    ) || contains(msg, WORD_NOT_SUPPORTED@)))
}

fn quoted(mode: &str) -> (r: String)
    ensures
        r@ == quoted_mode(mode@),
{
    let mut s = owned(QUOTE_PREFIX);
    push_str(&mut s, mode);
    push_str(&mut s, QUOTE);
    s
}

/// Strictly detect whether the API rejected the request *because* the given
/// thinking mode is unsupported.
pub fn is_thinking_rejected(err: &str, mode: &str) -> (r: bool)
    ensures
        r == thinking_rejected(err@, mode@),
{
    let msg = to_lowercase(err);
    let needle = quoted(mode);
    if contains_str(msg.as_str(), needle.as_str()) {
        return true;
    }
    if !crate::text::str_eq(LABEL_ADAPTIVE, mode) && contains_str(
        msg.as_str(),
        quoted(LABEL_ADAPTIVE).as_str(),
    ) {
        return false;
    }
    if !crate::text::str_eq(LABEL_ENABLED, mode) && contains_str(
        msg.as_str(),
        quoted(LABEL_ENABLED).as_str(),
    ) {
        return false;
    }
    if contains_str(msg.as_str(), WORD_UNKNOWN) && contains_str(msg.as_str(), WORD_THINKING) {
        return true;
    }
    contains_str(msg.as_str(), WORD_NOT_SUPPORTED) && contains_str(msg.as_str(), WORD_THINKING)
}

// ---------------------------------------------------------------------------
// Plain values of messages
// ---------------------------------------------------------------------------

/// The plain value of an optional string.
pub open spec fn opt_str(s: Option<String>) -> Option<Seq<char>> {
    match s {
        Some(t) => Some(t@),
        None => None,
    }
}

/// A tool call as plain values: (id, name, arguments).
pub open spec fn call_view(c: MessageToolCall) -> (Seq<char>, Seq<char>, Seq<char>) {
    (c.id@, c.name@, c.arguments@)
}

/// Tool calls as plain values.
pub open spec fn calls_view(v: Seq<MessageToolCall>) -> Seq<(Seq<char>, Seq<char>, Seq<char>)> {
    v.map_values(|c: MessageToolCall| call_view(c))
}

/// Optional tool calls as plain values.
pub open spec fn opt_calls_view(v: Option<Vec<MessageToolCall>>) -> Option<
    Seq<(Seq<char>, Seq<char>, Seq<char>)>,
> {
    match v {
        Some(c) => Some(calls_view(c@)),
        None => None,
    }
}

/// An image as plain values: (url, base64 data, media type).
pub open spec fn image_view(i: ImagePart) -> (Option<Seq<char>>, Option<Seq<char>>, Option<Seq<char>>) {
    (opt_str(i.url), opt_str(i.base64), opt_str(i.media_type))
}

/// Images as plain values.
pub open spec fn images_view(v: Seq<ImagePart>) -> Seq<(Option<Seq<char>>, Option<Seq<char>>, Option<Seq<char>>)> {
    v.map_values(|i: ImagePart| image_view(i))
}

fn copy_images(v: &Vec<ImagePart>) -> (r: Vec<ImagePart>)
    ensures
        images_view(r@) == images_view(v@),
{
    let mut out: Vec<ImagePart> = Vec::new();
    let mut i: usize = 0;
    while i < v.len()
        invariant
            i <= v.len(),
            out@.len() == i,
            forall|k: int| 0 <= k < i ==> image_view(#[trigger] out@[k]) == image_view(v@[k]),
        decreases v.len() - i,
    {
        let img = &v[i];
        out.push(
            ImagePart {
                url: copy_opt(&img.url),
                base64: copy_opt(&img.base64),
                media_type: copy_opt(&img.media_type),
            },
        );
        i = i + 1;
    }
    assert(images_view(out@) =~= images_view(v@));
    out
}

fn copy_opt(s: &Option<String>) -> (r: Option<String>)
    ensures
        opt_str(r) == opt_str(*s),
{
    match s {
        Some(t) => Some(t.clone()),
        None => None,
    }
}

fn copy_calls(v: &Vec<MessageToolCall>) -> (r: Vec<MessageToolCall>)
    ensures
        calls_view(r@) == calls_view(v@),
{
    let mut r: Vec<MessageToolCall> = Vec::new();
    let mut i: usize = 0;
    while i < v.len()
        invariant
            i <= v.len(),
            r@.len() == i,
            forall|x: int| 0 <= x < i ==> call_view(#[trigger] r@[x]) == call_view(v@[x]),
        decreases v.len() - i,
    {
        let c = &v[i];
        r.push(MessageToolCall { id: c.id.clone(), name: c.name.clone(), arguments: c.arguments.clone() });
        i = i + 1;
    }
    assert(calls_view(r@) =~= calls_view(v@));
    r
}

fn copy_opt_calls(v: &Option<Vec<MessageToolCall>>) -> (r: Option<Vec<MessageToolCall>>)
    ensures
        opt_calls_view(r) == opt_calls_view(*v),
{
    match v {
        Some(c) => Some(copy_calls(c)),
        None => None,
    }
}

/// The media type assumed for an inline image that names none.
pub const DEFAULT_MEDIA_TYPE: &'static str = "image/png";

/// The media type of an image (the default when absent).
pub open spec fn media_type_of(img: ImagePart) -> Seq<char> {
    match img.media_type {
        Some(m) => m@,
        None => DEFAULT_MEDIA_TYPE@,
    }
}

fn media_type(img: &ImagePart) -> (r: String)
    ensures
        r@ == media_type_of(*img),
{
    match &img.media_type {
        Some(m) => m.clone(),
        None => owned(DEFAULT_MEDIA_TYPE),
    }
}

// ---------------------------------------------------------------------------
// OpenAI wire layout
// ---------------------------------------------------------------------------

/// A message laid out for the OpenAI-compatible gateway.
#[derive(Debug, Clone)]
pub enum OpenAiMessage {
    System { content: String },
    Assistant {
        content: String,
        tool_calls: Option<Vec<MessageToolCall>>,
        reasoning_content: Option<String>,
    },
    ToolResult { tool_call_id: String, content: String },
    /// A user message with image parts: its text, then one URL per image.
    UserParts { text: String, image_urls: Vec<String> },
    User { content: String },
}

/// The plain value of an [`OpenAiMessage`].
pub enum OpenAiView {
    System { content: Seq<char> },
    Assistant {
        content: Seq<char>,
        tool_calls: Option<Seq<(Seq<char>, Seq<char>, Seq<char>)>>,
        reasoning_content: Option<Seq<char>>,
    },
    ToolResult { tool_call_id: Seq<char>, content: Seq<char> },
    UserParts { text: Seq<char>, image_urls: Seq<Seq<char>> },
    User { content: Seq<char> },
}

impl View for OpenAiMessage {
    type V = OpenAiView;

    open spec fn view(&self) -> OpenAiView {
        match self {
            OpenAiMessage::System { content } => OpenAiView::System { content: content@ },
            OpenAiMessage::Assistant { content, tool_calls, reasoning_content } => OpenAiView::Assistant {
                content: content@,
                tool_calls: opt_calls_view(*tool_calls),
                reasoning_content: opt_str(*reasoning_content),
            },
            OpenAiMessage::ToolResult { tool_call_id, content } => OpenAiView::ToolResult {
                tool_call_id: tool_call_id@,
                content: content@,
            },
            OpenAiMessage::UserParts { text, image_urls } => OpenAiView::UserParts {
                text: text@,
                image_urls: image_urls@.map_values(|u: String| u@),
            },
            OpenAiMessage::User { content } => OpenAiView::User { content: content@ },
        }
    }
}

pub const DATA_PREFIX: &'static str = "data:";

pub const BASE64_MARK: &'static str = ";base64,";

/// The URL an image is sent as: a `data:` URL for inline data, else its URL;
/// none when it has neither.
pub open spec fn image_url(img: ImagePart) -> Option<Seq<char>> {
    match img.base64 {
        Some(b) => Some(DATA_PREFIX@ + media_type_of(img) + BASE64_MARK@ + b@),
        None => match img.url {
            Some(u) => Some(u@),
            None => None,
        },
    }
}

/// The URLs of the images that have one, in order.
pub open spec fn image_urls(imgs: Seq<ImagePart>) -> Seq<Seq<char>>
    decreases imgs.len(),
{
    if imgs.len() == 0 {
        seq![]
    } else {
        match image_url(imgs.last()) {
            Some(u) => image_urls(imgs.drop_last()).push(u),
            None => image_urls(imgs.drop_last()),
        }
    }
}

/// The tool-call id a tool message answers (empty when absent).
pub open spec fn answered_id(m: Message) -> Seq<char> {
    match m.tool_call_id {
        Some(t) => t@,
        None => seq![],
    }
}

/// A tool message keeps the id of the call it answers: whatever its id and
/// content, a message with the tool role and a call id is laid out, for
/// either gateway, as a tool result naming that id, with that content.
pub proof fn law_tool_result_names_its_call(m: Message, id: String)
    requires
        m.role@ == TOOL@,
        m.tool_call_id == Some(id),
    ensures
        openai_layout(m) == (OpenAiView::ToolResult { tool_call_id: id@, content: m.content@ }),
        anthropic_layout(m) == (AnthropicView::ToolResult { tool_call_id: id@, content: m.content@ }),
{
    reveal_strlit("tool");
    reveal_strlit("system");
    reveal_strlit("assistant");
    assert(TOOL@[0] != SYSTEM@[0]);
    assert(TOOL@[0] != ASSISTANT@[0]);
}

/// The OpenAI layout keeps every message's role and text: a system message
/// stays a system message, an assistant message an assistant message with
/// its calls and reasoning, a tool message a tool result, and any other
/// message a user message (with its image URLs when it has images); the
/// content is carried over unchanged in each case.
pub proof fn law_openai_layout_keeps_role_and_text(m: Message)
    ensures
        m.role@ == SYSTEM@ ==> openai_layout(m) == (OpenAiView::System { content: m.content@ }),
        m.role@ == ASSISTANT@ ==> openai_layout(m) == (OpenAiView::Assistant {
            content: m.content@,
            tool_calls: opt_calls_view(m.tool_calls),
            reasoning_content: opt_str(m.reasoning_content),
        }),
        m.role@ == TOOL@ ==> openai_layout(m) is ToolResult && openai_layout(m)->ToolResult_content
            == m.content@,
        m.role@ != SYSTEM@ && m.role@ != ASSISTANT@ && m.role@ != TOOL@ ==> (openai_layout(m) matches OpenAiView::User { content } && content == m.content@) || (openai_layout(m) matches OpenAiView::UserParts { text, .. } && text == m.content@),
{
    reveal_strlit("tool");
    reveal_strlit("system");
    reveal_strlit("assistant");
    assert(TOOL@[0] != SYSTEM@[0]);
    assert(TOOL@[0] != ASSISTANT@[0]);
    assert(SYSTEM@[0] != ASSISTANT@[0]);
}

/// How a message is laid out for the OpenAI-compatible gateway.
pub open spec fn openai_layout(m: Message) -> OpenAiView {
    if m.role@ == SYSTEM@ {
        OpenAiView::System { content: m.content@ }
    } else if m.role@ == ASSISTANT@ {
        OpenAiView::Assistant {
            content: m.content@,
            tool_calls: opt_calls_view(m.tool_calls),
            reasoning_content: opt_str(m.reasoning_content),
        }
    } else if m.role@ == TOOL@ {
        OpenAiView::ToolResult { tool_call_id: answered_id(m), content: m.content@ }
    } else {
        match m.images {
            Some(imgs) => OpenAiView::UserParts { text: m.content@, image_urls: image_urls(imgs@) },
            None => OpenAiView::User { content: m.content@ },
        }
    }
}

fn answered_id_of(m: &Message) -> (r: String)
    ensures
        r@ == answered_id(*m),
{
    match &m.tool_call_id {
        Some(t) => t.clone(),
        None => String::new(),
    }
}

fn collect_image_urls(imgs: &Vec<ImagePart>) -> (r: Vec<String>)
    ensures
        r@.map_values(|u: String| u@) == image_urls(imgs@),
{
    let mut r: Vec<String> = Vec::new();
    let mut i: usize = 0;
    while i < imgs.len()
        invariant
            i <= imgs.len(),
            r@.map_values(|u: String| u@) == image_urls(imgs@.take(i as int)),
        decreases imgs.len() - i,
    {
        let img = &imgs[i];
        let ghost before = r@;
        assert(imgs@.take(i + 1).drop_last() =~= imgs@.take(i as int));
        assert(imgs@.take(i + 1).last() == imgs@[i as int]);
        match &img.base64 {
            Some(b) => {
                let mut u = owned(DATA_PREFIX);
                let mt = media_type(img);
                push_str(&mut u, mt.as_str());
                push_str(&mut u, BASE64_MARK);
                push_str(&mut u, b.as_str());
                r.push(u);
                assert(r@.map_values(|u: String| u@) =~= before.map_values(|u: String| u@).push(
                    u@,
                ));
            },
            None => match &img.url {
                Some(u) => {
                    r.push(u.clone());
                    assert(r@.map_values(|u: String| u@) =~= before.map_values(|u: String| u@).push(
                        u@,
                    ));
                },
                None => {},
            },
        }
        i = i + 1;
    }
    assert(imgs@.take(imgs.len() as int) =~= imgs@);
    r
}

/// Lay a normalized message out for the OpenAI-compatible gateway.
pub fn to_openai_message(msg: &Message) -> (r: OpenAiMessage)
    ensures
        r@ == openai_layout(*msg),
{
    let role = msg.role.as_str();
    if crate::text::str_eq(role, SYSTEM) {
        OpenAiMessage::System { content: msg.content.clone() }
    } else if crate::text::str_eq(role, ASSISTANT) {
        OpenAiMessage::Assistant {
            content: msg.content.clone(),
            tool_calls: copy_opt_calls(&msg.tool_calls),
            reasoning_content: copy_opt(&msg.reasoning_content),
        }
    } else if crate::text::str_eq(role, TOOL) {
        OpenAiMessage::ToolResult { tool_call_id: answered_id_of(msg), content: msg.content.clone() }
    } else {
        match &msg.images {
            Some(imgs) => OpenAiMessage::UserParts {
                text: msg.content.clone(),
                image_urls: collect_image_urls(imgs),
            },
            None => OpenAiMessage::User { content: msg.content.clone() },
        }
    }
}

/// The messages sent to the OpenAI-compatible gateway: the host system
/// prompt first (trimmed; skipped when absent or blank), then every message
/// in order.
pub open spec fn openai_messages(system: Option<Seq<char>>, msgs: Seq<Message>) -> Seq<OpenAiView> {
    let head = match system {
        Some(s) => if crate::text::trim(s).len() > 0 {
            seq![OpenAiView::System { content: crate::text::trim(s) }]
        } else {
            seq![]
        },
        None => seq![],
    };
    head + msgs.map_values(|m: Message| openai_layout(m))
}

/// Build the OpenAI message list. The host system prompt must be sent as the
/// first `system` message; otherwise OpenAI-compatible gateways never see the
/// host instructions.
pub fn build_messages(system: Option<&str>, messages: &[Message]) -> (r: Vec<OpenAiMessage>)
    ensures
        r@.map_values(|m: OpenAiMessage| m@) == openai_messages(
            match system {
                Some(s) => Some(s@),
                None => None,
            },
            messages@,
        ),
{
    let mut out: Vec<OpenAiMessage> = Vec::new();
    match system {
        Some(s) => {
            let t = crate::text::trim_str(s);
            if !t.as_str().is_empty() {
                out.push(OpenAiMessage::System { content: t });
            }
        },
        None => {},
    }
    let ghost head = out@.map_values(|m: OpenAiMessage| m@);
    let mut i: usize = 0;
    while i < messages.len()
        invariant
            i <= messages.len(),
            out@.map_values(|m: OpenAiMessage| m@) == head + messages@.take(i as int).map_values(
                |m: Message| openai_layout(m),
            ),
        decreases messages.len() - i,
    {
        let ghost before = out@;
        let m = to_openai_message(&messages[i]);
        out.push(m);
        assert(out@.map_values(|m: OpenAiMessage| m@) =~= before.map_values(
            |m: OpenAiMessage| m@,
        ).push(m@));
        assert(messages@.take(i + 1).map_values(|m: Message| openai_layout(m)) =~= messages@.take(
            i as int,
        ).map_values(|m: Message| openai_layout(m)).push(openai_layout(messages@[i as int])));
        i = i + 1;
    }
    assert(messages@.take(messages.len() as int) =~= messages@);
    proof {
        match system {
            Some(s) => {
                if crate::text::trim(s@).len() > 0 {
                    assert(head =~= seq![OpenAiView::System { content: crate::text::trim(s@) }]);
                } else {
                    assert(head =~= Seq::<OpenAiView>::empty());
                }
            },
            None => {
                assert(head =~= Seq::<OpenAiView>::empty());
            },
        }
    }
    out
}

// ---------------------------------------------------------------------------
// Anthropic wire layout
// ---------------------------------------------------------------------------

/// A content block of an Anthropic message.
#[derive(Debug, Clone)]
pub enum AnthropicBlock {
    Thinking { thinking: String, signature: String },
    Text { text: String },
    /// A tool call; `arguments` is the call's JSON text, parsed into the
    /// block's input (an empty object when it does not parse).
    ToolUse { id: String, name: String, arguments: String },
    Image { media_type: String, data: String },
}

/// The plain value of an [`AnthropicBlock`].
pub enum BlockView {
    Thinking { thinking: Seq<char>, signature: Seq<char> },
    Text { text: Seq<char> },
    ToolUse { id: Seq<char>, name: Seq<char>, arguments: Seq<char> },
    Image { media_type: Seq<char>, data: Seq<char> },
}

impl View for AnthropicBlock {
    type V = BlockView;

    open spec fn view(&self) -> BlockView {
        match self {
            AnthropicBlock::Thinking { thinking, signature } => BlockView::Thinking {
                thinking: thinking@,
                signature: signature@,
            },
            AnthropicBlock::Text { text } => BlockView::Text { text: text@ },
            AnthropicBlock::ToolUse { id, name, arguments } => BlockView::ToolUse {
                id: id@,
                name: name@,
                arguments: arguments@,
            },
            AnthropicBlock::Image { media_type, data } => BlockView::Image {
                media_type: media_type@,
                data: data@,
            },
        }
    }
}

/// A message laid out for the Anthropic gateway.
#[derive(Debug, Clone)]
pub enum AnthropicMessage {
    /// An assistant message given as content blocks (used when it carries
    /// reasoning, so that the thinking block and its signature go back).
    AssistantBlocks { blocks: Vec<AnthropicBlock>, reasoning_content: Option<String> },
    Assistant {
        content: String,
        tool_calls: Option<Vec<MessageToolCall>>,
        reasoning_content: Option<String>,
    },
    ToolResult { tool_call_id: String, content: String },
    UserBlocks { blocks: Vec<AnthropicBlock> },
    User { content: String },
}

/// The plain value of an [`AnthropicMessage`].
pub enum AnthropicView {
    AssistantBlocks { blocks: Seq<BlockView>, reasoning_content: Option<Seq<char>> },
    Assistant {
        content: Seq<char>,
        tool_calls: Option<Seq<(Seq<char>, Seq<char>, Seq<char>)>>,
        reasoning_content: Option<Seq<char>>,
    },
    ToolResult { tool_call_id: Seq<char>, content: Seq<char> },
    UserBlocks { blocks: Seq<BlockView> },
    User { content: Seq<char> },
}

/// The plain values of a list of blocks.
pub open spec fn blocks_view(b: Seq<AnthropicBlock>) -> Seq<BlockView> {
    b.map_values(|x: AnthropicBlock| x@)
}

impl View for AnthropicMessage {
    type V = AnthropicView;

    open spec fn view(&self) -> AnthropicView {
        match self {
            AnthropicMessage::AssistantBlocks { blocks, reasoning_content } => AnthropicView::AssistantBlocks {
                blocks: blocks_view(blocks@),
                reasoning_content: opt_str(*reasoning_content),
            },
            AnthropicMessage::Assistant { content, tool_calls, reasoning_content } => AnthropicView::Assistant {
                content: content@,
                tool_calls: opt_calls_view(*tool_calls),
                reasoning_content: opt_str(*reasoning_content),
            },
            AnthropicMessage::ToolResult { tool_call_id, content } => AnthropicView::ToolResult {
                tool_call_id: tool_call_id@,
                content: content@,
            },
            AnthropicMessage::UserBlocks { blocks } => AnthropicView::UserBlocks {
                blocks: blocks_view(blocks@),
            },
            AnthropicMessage::User { content } => AnthropicView::User { content: content@ },
        }
    }
}

/// Whether the message carries non-empty reasoning.
pub open spec fn has_reasoning(m: Message) -> bool {
    m.reasoning_content matches Some(r) && r@.len() > 0
}

/// The tool-use blocks of a list of calls.
pub open spec fn tool_use_blocks(calls: Seq<MessageToolCall>) -> Seq<BlockView> {
    calls.map_values(
        |c: MessageToolCall| BlockView::ToolUse { id: c.id@, name: c.name@, arguments: c.arguments@ },
    )
}

/// The blocks of an assistant message with reasoning: the thinking block
/// (with its signature, empty when absent), the text when non-empty, then
/// one tool-use block per call.
pub open spec fn reasoning_blocks(m: Message) -> Seq<BlockView> {
    let thinking = BlockView::Thinking {
        thinking: m.reasoning_content->Some_0@,
        signature: match m.thinking_signature {
            Some(s) => s@,
            None => seq![],
        },
    };
    let text = if m.content@.len() > 0 {
        seq![BlockView::Text { text: m.content@ }]
    } else {
        seq![]
    };
    let tools = match m.tool_calls {
        Some(c) => tool_use_blocks(c@),
        None => seq![],
    };
    seq![thinking] + text + tools
}

/// The image blocks of a user message: one per inline image (with its media
/// type, the default when absent); images given only by URL are skipped, as
/// the gateway needs the data.
pub open spec fn image_blocks(imgs: Seq<ImagePart>) -> Seq<BlockView>
    decreases imgs.len(),
{
    if imgs.len() == 0 {
        seq![]
    } else {
        let last = imgs.last();
        match last.base64 {
            Some(b) => image_blocks(imgs.drop_last()).push(
                BlockView::Image { media_type: media_type_of(last), data: b@ },
            ),
            None => image_blocks(imgs.drop_last()),
        }
    }
}

/// How a message is laid out for the Anthropic gateway.
pub open spec fn anthropic_layout(m: Message) -> AnthropicView {
    if m.role@ == ASSISTANT@ {
        if has_reasoning(m) {
            AnthropicView::AssistantBlocks {
                blocks: reasoning_blocks(m),
                reasoning_content: opt_str(m.reasoning_content),
            }
        } else {
            AnthropicView::Assistant {
                content: m.content@,
                tool_calls: opt_calls_view(m.tool_calls),
                reasoning_content: opt_str(m.reasoning_content),
            }
        }
    } else if m.role@ == TOOL@ {
        AnthropicView::ToolResult { tool_call_id: answered_id(m), content: m.content@ }
    } else {
        match m.images {
            Some(imgs) => AnthropicView::UserBlocks {
                blocks: seq![BlockView::Text { text: m.content@ }] + image_blocks(imgs@),
            },
            None => AnthropicView::User { content: m.content@ },
        }
    }
}

fn push_block(out: &mut Vec<AnthropicBlock>, b: AnthropicBlock)
    ensures
        blocks_view(final(out)@) == blocks_view(old(out)@).push(b@),
{
    let ghost before = out@;
    out.push(b);
    assert(blocks_view(out@) =~= blocks_view(before).push(b@));
}

fn collect_image_blocks(out: &mut Vec<AnthropicBlock>, imgs: &Vec<ImagePart>)
    ensures
        blocks_view(final(out)@) == blocks_view(old(out)@) + image_blocks(imgs@),
{
    let ghost start = blocks_view(out@);
    let mut i: usize = 0;
    while i < imgs.len()
        invariant
            i <= imgs.len(),
            blocks_view(out@) == start + image_blocks(imgs@.take(i as int)),
        decreases imgs.len() - i,
    {
        let img = &imgs[i];
        assert(imgs@.take(i + 1).drop_last() =~= imgs@.take(i as int));
        assert(imgs@.take(i + 1).last() == imgs@[i as int]);
        match &img.base64 {
            Some(b) => {
                let ghost before = blocks_view(out@);
                push_block(out, AnthropicBlock::Image { media_type: media_type(img), data: b.clone() });
                assert(before.push(BlockView::Image { media_type: media_type_of(*img), data: b@ })
                    =~= start + image_blocks(imgs@.take(i + 1)));
            },
            None => {},
        }
        i = i + 1;
    }
    assert(imgs@.take(imgs.len() as int) =~= imgs@);
}

/// Lay a normalized message out for the Anthropic gateway. An assistant
/// message with reasoning becomes content blocks (thinking with its
/// signature, text, tool uses) so multi-turn conversations pass the
/// signature back; the blocks then carry the tool calls alone.
pub fn to_anthropic_message(msg: &Message) -> (r: AnthropicMessage)
    ensures
        r@ == anthropic_layout(*msg),
{
    let role = msg.role.as_str();
    if crate::text::str_eq(role, ASSISTANT) {
        let reasoning = match &msg.reasoning_content {
            Some(r) => !r.as_str().is_empty(),
            None => false,
        };
        if reasoning {
            let mut blocks: Vec<AnthropicBlock> = Vec::new();
            let thinking = match &msg.reasoning_content {
                Some(r) => r.clone(),
                None => String::new(),
            };
            let signature = match &msg.thinking_signature {
                Some(s) => s.clone(),
                None => String::new(),
            };
            push_block(&mut blocks, AnthropicBlock::Thinking { thinking, signature });
            assert(blocks_view(blocks@) =~= seq![BlockView::Thinking { thinking: thinking@, signature: signature@ }]);
            if !msg.content.as_str().is_empty() {
                push_block(&mut blocks, AnthropicBlock::Text { text: msg.content.clone() });
            }
            let ghost head = blocks_view(blocks@);
            match &msg.tool_calls {
                Some(calls) => {
                    let mut i: usize = 0;
                    while i < calls.len()
                        invariant
                            i <= calls.len(),
                            blocks_view(blocks@) == head + tool_use_blocks(calls@.take(i as int)),
                        decreases calls.len() - i,
                    {
                        let c = &calls[i];
                        push_block(
                            &mut blocks,
                            AnthropicBlock::ToolUse {
                                id: c.id.clone(),
                                name: c.name.clone(),
                                arguments: c.arguments.clone(),
                            },
                        );
                        assert(tool_use_blocks(calls@.take(i + 1)) =~= tool_use_blocks(
                            calls@.take(i as int),
                        ).push(
                            BlockView::ToolUse { id: c.id@, name: c.name@, arguments: c.arguments@ },
                        ));
                        i = i + 1;
                    }
                    assert(calls@.take(calls.len() as int) =~= calls@);
                },
                None => {},
            }
            assert(blocks_view(blocks@) =~= reasoning_blocks(*msg));
            AnthropicMessage::AssistantBlocks {
                blocks,
                reasoning_content: copy_opt(&msg.reasoning_content),
            }
        } else {
            AnthropicMessage::Assistant {
                content: msg.content.clone(),
                tool_calls: copy_opt_calls(&msg.tool_calls),
                reasoning_content: copy_opt(&msg.reasoning_content),
            }
        }
    } else if crate::text::str_eq(role, TOOL) {
        AnthropicMessage::ToolResult {
            tool_call_id: answered_id_of(msg),
            content: msg.content.clone(),
        }
    } else {
        match &msg.images {
            Some(imgs) => {
                let mut blocks: Vec<AnthropicBlock> = Vec::new();
                push_block(&mut blocks, AnthropicBlock::Text { text: msg.content.clone() });
                assert(blocks_view(blocks@) =~= seq![BlockView::Text { text: msg.content@ }]);
                collect_image_blocks(&mut blocks, imgs);
                AnthropicMessage::UserBlocks { blocks }
            },
            None => AnthropicMessage::User { content: msg.content.clone() },
        }
    }
}

// ---------------------------------------------------------------------------
// Stored messages
// ---------------------------------------------------------------------------

/// A tool call as stored in a JSONL message: its `id` when a string, and its
/// `function` object (when present) with `name` and `arguments` when strings.
#[derive(Debug, Clone)]
pub struct StoredToolCall {
    pub id: Option<String>,
    pub function: Option<(Option<String>, Option<String>)>,
}

/// The fields of a stored (JSONL) message, each `None` when absent or not of
/// the expected JSON type; `images` is `None` also when it does not parse.
#[derive(Debug, Clone)]
pub struct StoredMessage {
    pub role: Option<String>,
    pub content: Option<String>,
    pub tool_calls: Option<Vec<StoredToolCall>>,
    pub tool_call_id: Option<String>,
    pub reasoning_content: Option<String>,
    pub thinking_signature: Option<String>,
    pub images: Option<Vec<ImagePart>>,
}

/// A string field, empty when absent.
pub open spec fn or_empty(s: Option<String>) -> Seq<char> {
    match s {
        Some(t) => t@,
        None => seq![],
    }
}

/// The calls of stored tool calls: those with a `function`, in order, with
/// absent fields empty.
pub open spec fn stored_calls(v: Seq<StoredToolCall>) -> Seq<(Seq<char>, Seq<char>, Seq<char>)>
    decreases v.len(),
{
    if v.len() == 0 {
        seq![]
    } else {
        let prev = stored_calls(v.drop_last());
        let c = v.last();
        match c.function {
            Some(f) => prev.push((or_empty(c.id), or_empty(f.0), or_empty(f.1))),
            None => prev,
        }
    }
}

fn text_or_empty(s: &Option<String>) -> (r: String)
    ensures
        r@ == or_empty(*s),
{
    match s {
        Some(t) => t.clone(),
        None => String::new(),
    }
}

impl Message {
    /// A message from the fields of a stored one: role `user` and empty
    /// content when absent; the tool calls that have a `function` (absent
    /// fields empty), or none when that leaves no call; images only when
    /// there is at least one.
    pub fn from_stored(m: &StoredMessage) -> (r: Message)
        ensures
            r.role@ == match m.role {
                Some(t) => t@,
                None => USER@,
            },
            r.content@ == or_empty(m.content),
            match m.tool_calls {
                Some(v) => if stored_calls(v@).len() > 0 {
                    opt_calls_view(r.tool_calls) == Some(stored_calls(v@))
                } else {
                    r.tool_calls is None
                },
                None => r.tool_calls is None,
            },
            opt_str(r.tool_call_id) == opt_str(m.tool_call_id),
            opt_str(r.reasoning_content) == opt_str(m.reasoning_content),
            opt_str(r.thinking_signature) == opt_str(m.thinking_signature),
            match m.images {
                Some(v) => if v@.len() > 0 {
                    r.images matches Some(w) && images_view(w@) == images_view(v@)
                } else {
                    r.images is None
                },
                None => r.images is None,
            },
    {
        let role = match &m.role {
            Some(t) => t.clone(),
            None => owned(USER),
        };
        let tool_calls = match &m.tool_calls {
            Some(v) => {
                let mut calls: Vec<MessageToolCall> = Vec::new();
                let mut i: usize = 0;
                while i < v.len()
                    invariant
                        i <= v.len(),
                        calls_view(calls@) == stored_calls(v@.take(i as int)),
                    decreases v.len() - i,
                {
                    let c = &v[i];
                    assert(v@.take(i + 1).drop_last() =~= v@.take(i as int));
                    assert(v@.take(i + 1).last() == v@[i as int]);
                    match &c.function {
                        Some(f) => {
                            let ghost before = calls@;
                            let call = MessageToolCall {
                                id: text_or_empty(&c.id),
                                name: text_or_empty(&f.0),
                                arguments: text_or_empty(&f.1),
                            };
                            calls.push(call);
                            assert(calls_view(calls@) =~= calls_view(before).push(call_view(call)));
                        },
                        None => {},
                    }
                    i = i + 1;
                }
                assert(v@.take(v.len() as int) =~= v@);
                if calls.len() > 0 {
                    Some(calls)
                } else {
                    None
                }
            },
            None => None,
        };
        let images = match &m.images {
            Some(v) => if v.len() > 0 {
                Some(copy_images(v))
            } else {
                None
            },
            None => None,
        };
        Message {
            role,
            content: text_or_empty(&m.content),
            images,
            tool_calls,
            tool_call_id: copy_opt(&m.tool_call_id),
            reasoning_content: copy_opt(&m.reasoning_content),
            thinking_signature: copy_opt(&m.thinking_signature),
        }
    }
}

/// The first non-empty text of `sigs`, if any.
pub open spec fn first_nonempty(sigs: Seq<Seq<char>>) -> Option<Seq<char>>
    decreases sigs.len(),
{
    if sigs.len() == 0 {
        None
    } else if sigs[0].len() > 0 {
        Some(sigs[0])
    } else {
        first_nonempty(sigs.drop_first())
    }
}

/// The thinking signature of a complete (non-streamed) response, given the
/// signatures of its thinking blocks in order: the first non-empty one.
pub fn thinking_signature(signatures: &[String]) -> (r: Option<String>)
    ensures
        opt_str(r) == first_nonempty(views(signatures@)),
{
    let ghost all = views(signatures@);
    let mut i: usize = 0;
    assert(all.skip(0) =~= all);
    while i < signatures.len()
        invariant
            i <= signatures.len(),
            all == views(signatures@),
            first_nonempty(all.skip(i as int)) == first_nonempty(all),
        decreases signatures.len() - i,
    {
        assert(all.skip(i as int)[0] == signatures@[i as int]@);
        if !signatures[i].as_str().is_empty() {
            return Some(signatures[i].clone());
        }
        assert(all.skip(i as int).drop_first() =~= all.skip(i + 1));
        i = i + 1;
    }
    assert(all.skip(i as int).len() == 0);
    None
}

// ---------------------------------------------------------------------------
// The per-model thinking-mode cache
// ---------------------------------------------------------------------------

/// No two entries share a model.
pub open spec fn models_unique(e: Seq<(Seq<char>, Seq<char>)>) -> bool {
    forall|i: int, j: int| 0 <= i < j < e.len() ==> #[trigger] e[i].0 != #[trigger] e[j].0
}

/// The thinking mode that last worked for each model (its label).
pub struct ThinkingModeCache {
    entries: Vec<(String, String)>,
}

impl View for ThinkingModeCache {
    type V = Seq<(Seq<char>, Seq<char>)>;

    closed spec fn view(&self) -> Seq<(Seq<char>, Seq<char>)> {
        self.entries@.map_values(|e: (String, String)| (e.0@, e.1@))
    }
}

/// The label cached for `model`, if any.
pub open spec fn cached_label(e: Seq<(Seq<char>, Seq<char>)>, model: Seq<char>) -> Option<Seq<char>> {
    if exists|i: int| 0 <= i < e.len() && (#[trigger] e[i]).0 == model {
        Some(e[choose|i: int| 0 <= i < e.len() && (#[trigger] e[i]).0 == model].1)
    } else {
        None
    }
}

impl ThinkingModeCache {
    #[verifier::type_invariant]
    spec fn inv(self) -> bool {
        models_unique(self.entries@.map_values(|e: (String, String)| (e.0@, e.1@)))
    }

    /// An empty cache.
    pub fn new() -> (r: Self)
        ensures
            r@.len() == 0,
    {
        let r = ThinkingModeCache { entries: Vec::new() };
        assert(r.entries@.map_values(|e: (String, String)| (e.0@, e.1@)) =~= Seq::<
            (Seq<char>, Seq<char>),
        >::empty());
        r
    }

    fn position(&self, model: &str) -> (r: Option<usize>)
        ensures
            match r {
                Some(i) => i < self@.len() && self@[i as int].0 == model@,
                None => forall|i: int| 0 <= i < self@.len() ==> (#[trigger] self@[i]).0 != model@,
            },
    {
        let mut i: usize = 0;
        while i < self.entries.len()
            invariant
                i <= self.entries.len(),
                forall|k: int| 0 <= k < i ==> (#[trigger] self@[k]).0 != model@,
            decreases self.entries.len() - i,
        {
            assert(self@[i as int] == (self.entries@[i as int].0@, self.entries@[i as int].1@));
            if crate::text::str_eq(self.entries[i].0.as_str(), model) {
                return Some(i);
            }
            i = i + 1;
        }
        None
    }

    /// The label of the mode that last worked for `model`.
    pub fn get(&self, model: &str) -> (r: Option<String>)
        ensures
            match r {
                Some(l) => cached_label(self@, model@) == Some(l@),
                None => cached_label(self@, model@) is None,
            },
    {
        proof {
            use_type_invariant(self);
        }
        match self.position(model) {
            Some(i) => {
                proof {
                    let w = choose|x: int| 0 <= x < self@.len() && (#[trigger] self@[x]).0 == model@;
                    if w != i {
                        if w < i {
                            assert(self@[w].0 != self@[i as int].0);
                        } else {
                            assert(self@[i as int].0 != self@[w].0);
                        }
                    }
                }
                assert(self@[i as int] == (self.entries@[i as int].0@, self.entries@[i as int].1@));
                Some(self.entries[i].1.clone())
            },
            None => None,
        }
    }

    /// Remember that `label`'s mode worked for `model`.
    pub fn record(&mut self, model: &str, label: &str)
        ensures
            cached_label(final(self)@, model@) == Some(label@),
            forall|m: Seq<char>| m != model@ ==> cached_label(final(self)@, m) == cached_label(
                old(self)@,
                m,
            ),
    {
        proof {
            use_type_invariant(&*self);
        }
        let ghost old_v = self@;
        let pos = self.position(model);
        let mut entries: Vec<(String, String)> = Vec::new();
        std::mem::swap(&mut entries, &mut self.entries);
        let e = (owned(model), owned(label));
        match pos {
            Some(i) => {
                entries.set(i, e);
            },
            None => {
                entries.push(e);
            },
        }
        let ghost nv = entries@.map_values(|e: (String, String)| (e.0@, e.1@));
        proof {
            match pos {
                Some(i) => {
                    assert(nv =~= old_v.update(i as int, (model@, label@)));
                },
                None => {
                    assert(nv =~= old_v.push((model@, label@)));
                },
            }
            assert(models_unique(nv)) by {
                assert forall|a: int, b: int| 0 <= a < b < nv.len() implies #[trigger] nv[a].0
                    != #[trigger] nv[b].0 by {
                    match pos {
                        Some(i) => {
                            if a != i && b != i {
                                assert(old_v[a].0 != old_v[b].0);
                            } else if a == i {
                                assert(old_v[b].0 != old_v[i as int].0);
                            } else {
                                assert(old_v[a].0 != old_v[i as int].0);
                            }
                        },
                        None => {
                            if b < old_v.len() {
                                assert(old_v[a].0 != old_v[b].0);
                            } else {
                                assert(old_v[a].0 != model@);
                            }
                        },
                    }
                }
            }
            let k: int = match pos {
                Some(i) => i as int,
                None => old_v.len() as int,
            };
            assert(nv[k] == (model@, label@));
            let w = choose|x: int| 0 <= x < nv.len() && (#[trigger] nv[x]).0 == model@;
            if w != k {
                if w < k {
                    assert(nv[w].0 != nv[k].0);
                } else {
                    assert(nv[k].0 != nv[w].0);
                }
            }
            assert forall|m: Seq<char>| m != model@ implies cached_label(nv, m) == cached_label(
                old_v,
                m,
            ) by {
                if exists|i: int| 0 <= i < old_v.len() && (#[trigger] old_v[i]).0 == m {
                    let j = choose|i: int| 0 <= i < old_v.len() && (#[trigger] old_v[i]).0 == m;
                    assert(nv[j] == old_v[j]);
                    let w2 = choose|x: int| 0 <= x < nv.len() && (#[trigger] nv[x]).0 == m;
                    if w2 != j {
                        if w2 < j {
                            assert(nv[w2].0 != nv[j].0);
                        } else {
                            assert(nv[j].0 != nv[w2].0);
                        }
                    }
                } else {
                    if exists|i: int| 0 <= i < nv.len() && (#[trigger] nv[i]).0 == m {
                        let j = choose|i: int| 0 <= i < nv.len() && (#[trigger] nv[i]).0 == m;
                        if j != k {
                            assert(nv[j] == old_v[j]);
                        }
                    }
                }
            }
        }
        self.entries = entries;
    }
}


/// Whatever the preference, the last mode tried is no thinking at all, and
/// the preferred one is tried first.
pub proof fn law_candidates_end_without_thinking(pref: ThinkingPref)
    ensures
        candidates(pref).len() > 0,
        candidates(pref).last() == ThinkingMode::Off,
        pref == ThinkingPref::Adaptive ==> candidates(pref)[0] == ThinkingMode::Adaptive,
{
}

/// The cache only ever skips modes: the candidates tried after a cached mode
/// are a tail of the full list, still ending without thinking.
pub proof fn law_cache_only_skips(pref: ThinkingPref, cached: Option<Seq<char>>)
    ensures
        ({
            let all = candidates(pref);
            let after = candidates_after(all, cached);
            &&& after.len() > 0
            &&& after == all.skip(all.len() - after.len())
            &&& after.last() == ThinkingMode::Off
        }),
{
    let all = candidates(pref);
    match cached {
        Some(l) => match label_position(all, l) {
            Some(i) => {
                assert(all.skip(i).len() > 0);
                assert(all.skip(i) =~= all.skip(all.len() - all.skip(i).len()));
            },
            None => {
                assert(all.skip(0) =~= all);
            },
        },
        None => {
            assert(all.skip(0) =~= all);
        },
    }
}

} // verus!
