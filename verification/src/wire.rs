//! The OpenAI-compatible provider wire: endpoint resolution, authentication
//! headers, the role-tagged wire form of chat messages, response-shape
//! mapping, and the Responses-API text extraction. The HTTP transport
//! around these lives with the surrounding program.

use vstd::prelude::*;

use crate::chat::{ChatMessage, ChatResponse, FunctionCall, ToolCall};
use crate::strings::{concat_str, contains_seq, ends_with_seq, str_contains, str_ends_with, trim_spec, trim_str};
use vstd::string::StrSliceExecFns;

verus! {

/// How a provider expects the API key to be sent.
#[derive(Clone, Debug)]
pub enum AuthStyle {
    /// `Authorization: Bearer <key>`
    Bearer,
    /// `x-api-key: <key>`
    XApiKey,
    /// A custom header name.
    Custom(String),
}

/// The configuration of a provider that speaks the OpenAI-compatible chat
/// completions API. The HTTP client wrapping it lives outside.
pub struct OpenAiCompatibleProvider {
    pub name: String,
    pub base_url: String,
    pub api_key: Option<String>,
    pub auth_header: AuthStyle,
}

/// `s` without its trailing `/` characters.
pub open spec fn trim_end_slashes(s: Seq<char>) -> Seq<char>
    decreases s.len(),
{
    if s.len() > 0 && s.last() == '/' {
        trim_end_slashes(s.drop_last())
    } else {
        s
    }
}

/// Strip trailing slash characters from a string.
fn strip_trailing_slashes(s: &str) -> (r: String)
    ensures
        r@ == trim_end_slashes(s@),
{
    let chars = crate::strings::str_chars(s);
    let mut hi = chars.len();
    proof {
        assert(chars@.take(chars@.len() as int) =~= chars@);
    }
    while hi > 0 && chars[hi - 1] == '/'
        invariant
            hi <= chars@.len(),
            chars@ == s@,
            trim_end_slashes(s@) == trim_end_slashes(chars@.take(hi as int)),
        decreases hi,
    {
        proof {
            assert(chars@.take(hi as int).drop_last() =~= chars@.take(hi as int - 1));
        }
        hi = hi - 1;
    }
    let mut out: Vec<char> = Vec::new();
    let mut i: usize = 0;
    while i < hi
        invariant
            hi <= chars@.len(),
            i <= hi,
            chars@ == s@,
            out@ == chars@.take(hi as int).take(i as int),
        decreases hi - i,
    {
        out.push(chars[i]);
        i = i + 1;
        proof {
            assert(out@ =~= chars@.take(hi as int).take(i as int));
        }
    }
    proof {
        let kept = chars@.take(hi as int);
        assert(kept.take(hi as int) =~= kept);
        if hi > 0 {
            assert(kept.last() != '/');
        }
        assert(trim_end_slashes(kept) == kept);
    }
    crate::strings::chars_to_string(&out)
}

impl OpenAiCompatibleProvider {
    /// Build a provider configuration; trailing slashes of the base URL
    /// are dropped.
    pub fn new(name: &str, base_url: &str, api_key: Option<&str>, auth_style: AuthStyle) -> (p:
        OpenAiCompatibleProvider)
        ensures
            p.name@ == name@,
            p.base_url@ == trim_end_slashes(base_url@),
            match (p.api_key, api_key) {
                (Some(k), Some(given)) => k@ == given@,
                (None, None) => true,
                _ => false,
            },
            p.auth_header == auth_style,
    {
        OpenAiCompatibleProvider {
            name: name.to_owned(),
            base_url: strip_trailing_slashes(base_url),
            api_key: match api_key {
                Some(k) => Some(k.to_owned()),
                None => None,
            },
            auth_header: auth_style,
        }
    }

    /// The chat-completions endpoint: the base URL as given when it
    /// already ends with `chat/completions` (custom-path providers), else
    /// with `/chat/completions` appended.
    pub fn chat_completions_url(&self) -> (r: String)
        ensures
            ends_with_seq(self.base_url@, "chat/completions"@) ==> r@ == self.base_url@,
            !ends_with_seq(self.base_url@, "chat/completions"@) ==> r@ == self.base_url@
                + "/chat/completions"@,
    {
        if str_ends_with(self.base_url.as_str(), "chat/completions") {
            self.base_url.clone()
        } else {
            concat_str(self.base_url.as_str(), "/chat/completions")
        }
    }

    /// The Responses-API endpoint: the base URL as given when it already
    /// names `responses`, else with `/v1/responses` appended.
    pub fn responses_url(&self) -> (r: String)
        ensures
            contains_seq(self.base_url@, "responses"@) ==> r@ == self.base_url@,
            !contains_seq(self.base_url@, "responses"@) ==> r@ == self.base_url@
                + "/v1/responses"@,
    {
        if str_contains(self.base_url.as_str(), "responses") {
            self.base_url.clone()
        } else {
            concat_str(self.base_url.as_str(), "/v1/responses")
        }
    }

    /// The configured API key, or the diagnostic asking for onboarding.
    pub fn require_api_key(&self) -> (r: Result<&String, String>)
        ensures
            match r {
                Ok(k) => self.api_key == Some(*k),
                Err(m) => self.api_key is None && m@ == self.name@
                    + " API key not set. Run `jarvis onboard` or set the appropriate env var."@,
            },
    {
        match &self.api_key {
            Some(k) => Ok(k),
            None => Err(
                concat_str(
                    self.name.as_str(),
                    " API key not set. Run `jarvis onboard` or set the appropriate env var.",
                ),
            ),
        }
    }

    /// The header name and value carrying the API key.
    pub fn auth_header_parts(&self, api_key: &str) -> (r: (String, String))
        ensures
            match self.auth_header {
                AuthStyle::Bearer => r.0@ == "Authorization"@ && r.1@ == "Bearer "@ + api_key@,
                AuthStyle::XApiKey => r.0@ == "x-api-key"@ && r.1@ == api_key@,
                AuthStyle::Custom(h) => r.0@ == h@ && r.1@ == api_key@,
            },
    {
        match &self.auth_header {
            AuthStyle::Bearer => (
                "Authorization".to_owned(),
                concat_str("Bearer ", api_key),
            ),
            AuthStyle::XApiKey => ("x-api-key".to_owned(), api_key.to_owned()),
            AuthStyle::Custom(h) => (h.clone(), api_key.to_owned()),
        }
    }
}

/// Tool call in the OpenAI wire format.
#[derive(Clone, Debug)]
pub struct WireToolCall {
    pub id: String,
    pub kind: String,
    pub function: WireFunctionCall,
}

/// Function call in the OpenAI wire format. `arguments` holds the
/// already-normalized JSON text.
#[derive(Clone, Debug)]
pub struct WireFunctionCall {
    pub name: String,
    pub arguments: String,
}

/// A message in the OpenAI wire format: a role tag with optional fields,
/// absent ones omitted on the wire.
#[derive(Clone, Debug)]
pub struct WireMessage {
    pub role: String,
    pub content: Option<String>,
    pub tool_calls: Option<Vec<WireToolCall>>,
    pub tool_call_id: Option<String>,
}

/// Serialize one chat message to its role-tagged wire form: system, user
/// and tool messages bear `content`; an assistant message bears whichever
/// of `content` and `tool_calls` it has; a tool message bears the id of
/// the call it answers. Each wire tool call is typed `"function"`.
pub fn wire_message_from(msg: &ChatMessage) -> (w: WireMessage)
    ensures
        ({
            match msg@ {
                crate::chat::MsgModel::System { content } => w.role@ == "system"@ && (w.content
                    matches Some(c) && c@ == content) && w.tool_calls is None && w.tool_call_id
                    is None,
                crate::chat::MsgModel::User { content } => w.role@ == "user"@ && (w.content
                    matches Some(c) && c@ == content) && w.tool_calls is None && w.tool_call_id
                    is None,
                crate::chat::MsgModel::Assistant { content, tool_calls } => w.role@
                    == "assistant"@ && (match (w.content, content) {
                    (Some(c), Some(m)) => c@ == m,
                    (None, None) => true,
                    _ => false,
                }) && (match (w.tool_calls, tool_calls) {
                    (Some(wc), Some(mc)) => wc@.len() == mc.len() && (forall|l: int|
                        0 <= l < mc.len() ==> {
                            &&& (#[trigger] wc@[l]).id@ == mc[l].id
                            &&& wc@[l].kind@ == "function"@
                            &&& wc@[l].function.name@ == mc[l].name
                            &&& wc@[l].function.arguments@ == mc[l].arguments
                        }),
                    (None, None) => true,
                    _ => false,
                }) && w.tool_call_id is None,
                crate::chat::MsgModel::Tool { tool_call_id, content } => w.role@ == "tool"@ && (
                w.content matches Some(c) && c@ == content) && w.tool_calls is None && (
                w.tool_call_id matches Some(i) && i@ == tool_call_id),
            }
        }),
{
    match msg {
        ChatMessage::System { content } => WireMessage {
            role: "system".to_owned(),
            content: Some(content.clone()),
            tool_calls: None,
            tool_call_id: None,
        },
        ChatMessage::User { content } => WireMessage {
            role: "user".to_owned(),
            content: Some(content.clone()),
            tool_calls: None,
            tool_call_id: None,
        },
        ChatMessage::Assistant { content, tool_calls } => {
            let c = match content {
                Some(s) => Some(s.clone()),
                None => None,
            };
            let wc: Option<Vec<WireToolCall>> = match tool_calls {
                Some(calls) => {
                    let mut v: Vec<WireToolCall> = Vec::new();
                    let n = calls.len();
                    let mut i: usize = 0;
                    while i < n
                        invariant
                            n == calls@.len(),
                            i <= n,
                            v@.len() == i,
                            forall|l: int|
                                0 <= l < i ==> {
                                    &&& (#[trigger] v@[l]).id@ == calls@[l]@.id
                                    &&& v@[l].kind@ == "function"@
                                    &&& v@[l].function.name@ == calls@[l]@.name
                                    &&& v@[l].function.arguments@ == calls@[l]@.arguments
                                },
                        decreases n - i,
                    {
                        v.push(
                            WireToolCall {
                                id: calls[i].id.clone(),
                                kind: "function".to_owned(),
                                function: WireFunctionCall {
                                    name: calls[i].function.name.clone(),
                                    arguments: calls[i].function.arguments.clone(),
                                },
                            },
                        );
                        i = i + 1;
                    }
                    Some(v)
                },
                None => None,
            };
            WireMessage {
                role: "assistant".to_owned(),
                content: c,
                tool_calls: wc,
                tool_call_id: None,
            }
        },
        ChatMessage::Tool { tool_call_id, content } => WireMessage {
            role: "tool".to_owned(),
            content: Some(content.clone()),
            tool_calls: None,
            tool_call_id: Some(tool_call_id.clone()),
        },
    }
}

/// Ghost model of a wire tool call.
pub struct WireCallModel {
    pub id: Seq<char>,
    pub kind: Seq<char>,
    pub name: Seq<char>,
    pub arguments: Seq<char>,
}

impl View for WireToolCall {
    type V = WireCallModel;

    open spec fn view(&self) -> WireCallModel {
        WireCallModel {
            id: self.id@,
            kind: self.kind@,
            name: self.function.name@,
            arguments: self.function.arguments@,
        }
    }
}

/// Ghost model of a wire message.
pub struct WireModel {
    pub role: Seq<char>,
    pub content: Option<Seq<char>>,
    pub tool_calls: Option<Seq<WireCallModel>>,
    pub tool_call_id: Option<Seq<char>>,
}

impl View for WireMessage {
    type V = WireModel;

    open spec fn view(&self) -> WireModel {
        WireModel {
            role: self.role@,
            content: match &self.content {
                Some(c) => Some(c@),
                None => None,
            },
            tool_calls: match &self.tool_calls {
                Some(v) => Some(v@.map_values(|t: WireToolCall| t@)),
                None => None,
            },
            tool_call_id: match &self.tool_call_id {
                Some(i) => Some(i@),
                None => None,
            },
        }
    }
}

/// Why a provider's reply could not be used.
#[derive(Clone, Debug)]
pub enum WireError {
    /// The reply held no choices.
    NoChoices,
    /// The first choice's message had neither tool calls nor content.
    NoContent,
}

/// The first choice's message of a chat-completions reply, already
/// deserialized: optional text and optional tool calls.
#[derive(Clone, Debug)]
pub struct WireResponseMessage {
    pub content: Option<String>,
    pub tool_calls: Option<Vec<WireToolCall>>,
}

/// Map the first choice's message to a chat response: a non-empty
/// `tool_calls` list wins and carries the text as preamble; otherwise the
/// content is the text; a message with neither is an error.
pub fn response_from_message(msg: WireResponseMessage) -> (r: Result<ChatResponse, WireError>)
    ensures
        ({
            let has_calls = match msg.tool_calls {
                Some(tc) => tc@.len() > 0,
                None => false,
            };
            match r {
                Ok(ChatResponse::ToolUse { tool_calls, text }) => {
                    &&& has_calls
                    &&& (match (msg.tool_calls) {
                        Some(tc) => tool_calls@.len() == tc@.len() && (forall|l: int|
                            0 <= l < tc@.len() ==> {
                                &&& (#[trigger] tool_calls@[l])@.id == tc@[l].id@
                                &&& tool_calls@[l]@.name == tc@[l].function.name@
                                &&& tool_calls@[l]@.arguments == tc@[l].function.arguments@
                            }),
                        None => false,
                    })
                    &&& (match (text, msg.content) {
                        (Some(t), Some(c)) => t@ == c@,
                        (None, None) => true,
                        _ => false,
                    })
                },
                Ok(ChatResponse::Text(t)) => !has_calls && (msg.content matches Some(c) && t@
                    == c@),
                Err(WireError::NoContent) => !has_calls && msg.content is None,
                Err(WireError::NoChoices) => false,
            }
        }),
{
    let has_calls = match &msg.tool_calls {
        Some(tc) => tc.len() > 0,
        None => false,
    };
    if has_calls {
        let wire_calls = match msg.tool_calls {
            Some(tc) => tc,
            None => Vec::new(),
        };
        let mut calls: Vec<ToolCall> = Vec::new();
        let n = wire_calls.len();
        let mut i: usize = 0;
        while i < n
            invariant
                n == wire_calls@.len(),
                i <= n,
                calls@.len() == i,
                forall|l: int|
                    0 <= l < i ==> {
                        &&& (#[trigger] calls@[l])@.id == wire_calls@[l].id@
                        &&& calls@[l]@.name == wire_calls@[l].function.name@
                        &&& calls@[l]@.arguments == wire_calls@[l].function.arguments@
                    },
            decreases n - i,
        {
            calls.push(
                ToolCall {
                    id: wire_calls[i].id.clone(),
                    function: FunctionCall {
                        name: wire_calls[i].function.name.clone(),
                        arguments: wire_calls[i].function.arguments.clone(),
                    },
                },
            );
            i = i + 1;
        }
        Ok(ChatResponse::ToolUse { tool_calls: calls, text: msg.content })
    } else {
        match msg.content {
            Some(c) => Ok(ChatResponse::Text(c)),
            None => Err(WireError::NoContent),
        }
    }
}

/// The content of the first system message, if any.
pub open spec fn first_system_content(h: Seq<crate::chat::MsgModel>) -> Option<Seq<char>>
    decreases h.len(),
{
    if h.len() == 0 {
        None
    } else {
        match h[0] {
            crate::chat::MsgModel::System { content } => Some(content),
            _ => first_system_content(h.drop_first()),
        }
    }
}

/// The content of the last user message; empty when there is none.
pub open spec fn last_user_content(h: Seq<crate::chat::MsgModel>) -> Seq<char>
    decreases h.len(),
{
    if h.len() == 0 {
        Seq::empty()
    } else {
        match h.last() {
            crate::chat::MsgModel::User { content } => content,
            _ => last_user_content(h.drop_last()),
        }
    }
}

/// Reduce a multi-turn history to a single-turn exchange, for providers
/// that only offer plain chat: the first system prompt (if any) and the
/// most recent user message (empty when there is none).
pub fn single_turn_fallback(messages: &Vec<ChatMessage>) -> (r: (Option<String>, String))
    ensures
        ({
            let h = crate::chat::hist_model(messages@);
            &&& (match (r.0, first_system_content(h)) {
                (Some(s), Some(m)) => s@ == m,
                (None, None) => true,
                _ => false,
            })
            &&& r.1@ == last_user_content(h)
        }),
{
    let ghost h = crate::chat::hist_model(messages@);
    let n = messages.len();
    let mut system: Option<String> = None;
    let mut i: usize = 0;
    proof {
        assert(h.skip(0) =~= h);
    }
    while i < n && system.is_none()
        invariant
            h == crate::chat::hist_model(messages@),
            n == h.len(),
            i <= n,
            match system {
                Some(s) => first_system_content(h) == Some(s@),
                None => first_system_content(h) == first_system_content(h.skip(i as int)),
            },
        decreases n - i,
    {
        proof {
            assert(h.skip(i as int)[0] == h[i as int]);
            assert(h.skip(i as int).drop_first() =~= h.skip(i as int + 1));
            assert(h[i as int] == messages@[i as int]@);
        }
        match &messages[i] {
            ChatMessage::System { content } => {
                system = Some(content.clone());
            },
            _ => {},
        }
        i = i + 1;
    }
    proof {
        if system is None {
            assert(h.skip(n as int) =~= Seq::<crate::chat::MsgModel>::empty());
        }
    }
    let mut user: String = String::new();
    let mut j: usize = n;
    let mut found = false;
    proof {
        assert(h.take(n as int) =~= h);
    }
    while j > 0 && !found
        invariant
            h == crate::chat::hist_model(messages@),
            n == h.len(),
            j <= n,
            if found {
                last_user_content(h) == user@
            } else {
                user@.len() == 0 && last_user_content(h) == last_user_content(h.take(j as int))
            },
        decreases j,
    {
        proof {
            assert(h.take(j as int).last() == h[j - 1]);
            assert(h.take(j as int).drop_last() =~= h.take(j as int - 1));
            assert(h[j - 1] == messages@[j - 1]@);
        }
        match &messages[j - 1] {
            ChatMessage::User { content } => {
                user = content.clone();
                found = true;
            },
            _ => {},
        }
        j = j - 1;
    }
    proof {
        if !found {
            assert(h.take(0) =~= Seq::<crate::chat::MsgModel>::empty());
        }
    }
    (system, user)
}

/// Trimmed non-empty text, or nothing.
pub open spec fn first_nonempty_spec(text: Option<Seq<char>>) -> Option<Seq<char>> {
    match text {
        Some(t) => if trim_spec(t).len() == 0 {
            None
        } else {
            Some(trim_spec(t))
        },
        None => None,
    }
}

/// Trim the given text; empty or absent text yields nothing.
pub fn first_nonempty(text: Option<&str>) -> (r: Option<String>)
    ensures
        match (r, first_nonempty_spec(match text {
            Some(t) => Some(t@),
            None => None,
        })) {
            (Some(s), Some(m)) => s@ == m,
            (None, None) => true,
            _ => false,
        },
{
    match text {
        Some(t) => {
            let trimmed = trim_str(t);
            if trimmed.as_str().unicode_len() == 0 {
                None
            } else {
                Some(trimmed)
            }
        },
        None => None,
    }
}

/// One content item of a Responses-API output entry.
#[derive(Clone, Debug)]
pub struct ResponsesContent {
    pub kind: Option<String>,
    pub text: Option<String>,
}

/// One output entry of a Responses-API reply.
#[derive(Clone, Debug)]
pub struct ResponsesOutput {
    pub content: Vec<ResponsesContent>,
}

/// A Responses-API reply body.
#[derive(Clone, Debug)]
pub struct ResponsesBody {
    pub output: Vec<ResponsesOutput>,
    pub output_text: Option<String>,
}

/// The trimmed non-blank text of one content item.
pub open spec fn item_text(c: ResponsesContent) -> Option<Seq<char>> {
    first_nonempty_spec(
        match c.text {
            Some(t) => Some(t@),
            None => None,
        },
    )
}

/// The same, but only for items typed `output_text`.
pub open spec fn item_typed_text(c: ResponsesContent) -> Option<Seq<char>> {
    if match c.kind {
        Some(k) => k@ == "output_text"@,
        None => false,
    } {
        item_text(c)
    } else {
        None
    }
}

/// The first hit among a list of content items; `typed` restricts the
/// search to `output_text`-typed items.
pub open spec fn first_in_items(items: Seq<ResponsesContent>, typed: bool) -> Option<Seq<char>>
    decreases items.len(),
{
    if items.len() == 0 {
        None
    } else {
        match (if typed {
            item_typed_text(items[0])
        } else {
            item_text(items[0])
        }) {
            Some(t) => Some(t),
            None => first_in_items(items.drop_first(), typed),
        }
    }
}

/// The first hit across the output entries, scanning their items in order.
pub open spec fn first_in_outputs(outputs: Seq<ResponsesOutput>, typed: bool) -> Option<Seq<char>>
    decreases outputs.len(),
{
    if outputs.len() == 0 {
        None
    } else {
        match first_in_items(outputs[0].content@, typed) {
            Some(t) => Some(t),
            None => first_in_outputs(outputs.drop_first(), typed),
        }
    }
}

/// The Responses-API extraction rule: the top-level `output_text` when
/// non-blank; else the first non-blank `output_text`-typed content item;
/// else the first non-blank content item of any type.
pub open spec fn responses_text_spec(r: ResponsesBody) -> Option<Seq<char>> {
    match first_nonempty_spec(
        match r.output_text {
            Some(t) => Some(t@),
            None => None,
        },
    ) {
        Some(t) => Some(t),
        None => match first_in_outputs(r.output@, true) {
            Some(t) => Some(t),
            None => first_in_outputs(r.output@, false),
        },
    }
}

/// Extract the reply text from a Responses-API body, by the priority rule
/// `responses_text_spec` states.
pub fn extract_responses_text(response: &ResponsesBody) -> (r: Option<String>)
    ensures
        match (r, responses_text_spec(*response)) {
            (Some(s), Some(m)) => s@ == m,
            (None, None) => true,
            _ => false,
        },
{
    let top = first_nonempty(
        match &response.output_text {
            Some(t) => Some(t.as_str()),
            None => None,
        },
    );
    match top {
        Some(t) => {
            return Some(t);
        },
        None => {},
    }
    let outs = &response.output;
    let n = outs.len();
    // First pass: content items explicitly typed `output_text`.
    let mut i: usize = 0;
    proof {
        assert(outs@.skip(0) =~= outs@);
    }
    while i < n
        invariant
            outs@ == response.output@,
            n == outs@.len(),
            i <= n,
            first_nonempty_spec(
                match response.output_text {
                    Some(t) => Some(t@),
                    None => None,
                },
            ) is None,
            first_in_outputs(outs@, true) == first_in_outputs(outs@.skip(i as int), true),
        decreases n - i,
    {
        proof {
            assert(outs@.skip(i as int)[0] == outs@[i as int]);
            assert(outs@.skip(i as int).drop_first() =~= outs@.skip(i as int + 1));
        }
        let items = &outs[i].content;
        let m = items.len();
        let mut j: usize = 0;
        proof {
            assert(items@.skip(0) =~= items@);
        }
        while j < m
            invariant
                outs@ == response.output@,
                n == outs@.len(),
                i < n,
                items@ == outs@[i as int].content@,
                m == items@.len(),
                j <= m,
                first_nonempty_spec(
                    match response.output_text {
                        Some(t) => Some(t@),
                        None => None,
                    },
                ) is None,
                first_in_outputs(outs@, true) == first_in_outputs(outs@.skip(i as int), true),
                first_in_items(items@, true) == first_in_items(items@.skip(j as int), true),
            decreases m - j,
        {
            proof {
                assert(items@.skip(j as int)[0] == items@[j as int]);
                assert(items@.skip(j as int).drop_first() =~= items@.skip(j as int + 1));
            }
            let item = &items[j];
            let is_output_text = match &item.kind {
                Some(k) => crate::strings::str_eq(k.as_str(), "output_text"),
                None => false,
            };
            if is_output_text {
                let got = first_nonempty(
                    match &item.text {
                        Some(t) => Some(t.as_str()),
                        None => None,
                    },
                );
                match got {
                    Some(t) => {
                        proof {
                            assert(item_typed_text(items@[j as int]) == Some(t@));
                            assert(first_in_items(items@.skip(j as int), true) == Some(t@));
                            assert(first_in_outputs(outs@.skip(i as int), true) == Some(t@));
                        }
                        return Some(t);
                    },
                    None => {},
                }
            }
            proof {
                if is_output_text {
                    assert(item_typed_text(items@[j as int]) is None);
                } else {
                    assert(item_typed_text(items@[j as int]) is None);
                }
            }
            j = j + 1;
        }
        proof {
            assert(items@.skip(m as int) =~= Seq::<ResponsesContent>::empty());
        }
        i = i + 1;
    }
    proof {
        assert(outs@.skip(n as int) =~= Seq::<ResponsesOutput>::empty());
        assert(first_in_outputs(outs@, true) is None);
    }
    // Second pass: any non-blank text at all.
    let mut i2: usize = 0;
    proof {
        assert(outs@.skip(0) =~= outs@);
    }
    while i2 < n
        invariant
            outs@ == response.output@,
            n == outs@.len(),
            i2 <= n,
            first_nonempty_spec(
                match response.output_text {
                    Some(t) => Some(t@),
                    None => None,
                },
            ) is None,
            first_in_outputs(outs@, true) is None,
            first_in_outputs(outs@, false) == first_in_outputs(outs@.skip(i2 as int), false),
        decreases n - i2,
    {
        proof {
            assert(outs@.skip(i2 as int)[0] == outs@[i2 as int]);
            assert(outs@.skip(i2 as int).drop_first() =~= outs@.skip(i2 as int + 1));
        }
        let items = &outs[i2].content;
        let m = items.len();
        let mut j: usize = 0;
        proof {
            assert(items@.skip(0) =~= items@);
        }
        while j < m
            invariant
                outs@ == response.output@,
                n == outs@.len(),
                i2 < n,
                items@ == outs@[i2 as int].content@,
                m == items@.len(),
                j <= m,
                first_nonempty_spec(
                    match response.output_text {
                        Some(t) => Some(t@),
                        None => None,
                    },
                ) is None,
                first_in_outputs(outs@, true) is None,
                first_in_outputs(outs@, false) == first_in_outputs(outs@.skip(i2 as int), false),
                first_in_items(items@, false) == first_in_items(items@.skip(j as int), false),
            decreases m - j,
        {
            proof {
                assert(items@.skip(j as int)[0] == items@[j as int]);
                assert(items@.skip(j as int).drop_first() =~= items@.skip(j as int + 1));
            }
            let item = &items[j];
            let got = first_nonempty(
                match &item.text {
                    Some(t) => Some(t.as_str()),
                    None => None,
                },
            );
            match got {
                Some(t) => {
                    proof {
                        assert(item_text(items@[j as int]) == Some(t@));
                        assert(first_in_items(items@.skip(j as int), false) == Some(t@));
                        assert(first_in_outputs(outs@.skip(i2 as int), false) == Some(t@));
                    }
                    return Some(t);
                },
                None => {},
            }
            proof {
                assert(item_text(items@[j as int]) is None);
            }
            j = j + 1;
        }
        proof {
            assert(items@.skip(m as int) =~= Seq::<ResponsesContent>::empty());
        }
        i2 = i2 + 1;
    }
    proof {
        assert(outs@.skip(n as int) =~= Seq::<ResponsesOutput>::empty());
        assert(first_in_outputs(outs@, false) is None);
    }
    None
}

/// Bounded retry with exponential back-off for transient provider errors.
pub struct RetryPolicy {
    pub max_retries: u32,
    pub base_delay_ms: u64,
}

/// The longest delay the retry schedule uses.
pub const RETRY_DELAY_CAP_MS: u64 = 30000;

impl RetryPolicy {
    /// The delay before retry number `attempt` (counting from zero), or
    /// nothing once the attempts are spent: the base delay doubled per
    /// attempt, capped.
    pub fn retry_delay_ms(&self, attempt: u32) -> (r: Option<u64>)
        ensures
            attempt >= self.max_retries ==> r is None,
            attempt < self.max_retries ==> r == Some(
                vstd::math::min(
                    self.base_delay_ms * vstd::arithmetic::power2::pow2(attempt as nat),
                    RETRY_DELAY_CAP_MS as int,
                ) as u64,
            ),
    {
        if attempt >= self.max_retries {
            return None;
        }
        let mut delay: u64 = if self.base_delay_ms > RETRY_DELAY_CAP_MS {
            RETRY_DELAY_CAP_MS
        } else {
            self.base_delay_ms
        };
        let mut k: u32 = 0;
        proof {
            vstd::arithmetic::power2::lemma2_to64();
        }
        while k < attempt && delay < RETRY_DELAY_CAP_MS
            invariant
                k <= attempt,
                delay == vstd::math::min(
                    self.base_delay_ms * vstd::arithmetic::power2::pow2(k as nat),
                    RETRY_DELAY_CAP_MS as int,
                ),
            decreases attempt - k,
        {
            proof {
                vstd::arithmetic::power2::lemma_pow2_unfold(k as nat + 1);
                vstd::arithmetic::power2::lemma_pow2_pos(k as nat);
                let p = vstd::arithmetic::power2::pow2(k as nat);
                assert(self.base_delay_ms * vstd::arithmetic::power2::pow2(k as nat + 1) == 2 * (
                self.base_delay_ms * p)) by (nonlinear_arith)
                    requires
                        vstd::arithmetic::power2::pow2(k as nat + 1) == 2 * p,
                ;
            }
            if delay > RETRY_DELAY_CAP_MS / 2 {
                delay = RETRY_DELAY_CAP_MS;
            } else {
                delay = 2 * delay;
            }
            k = k + 1;
        }
        proof {
            if k < attempt {
                lemma_pow_mono_cap(self.base_delay_ms, k as nat, attempt as nat);
            }
        }
        Some(delay)
    }
}

/// Once the capped schedule reaches the cap it stays there.
proof fn lemma_pow_mono_cap(base: u64, k: nat, attempt: nat)
    requires
        k <= attempt,
        vstd::math::min(
            base * vstd::arithmetic::power2::pow2(k),
            RETRY_DELAY_CAP_MS as int,
        ) >= RETRY_DELAY_CAP_MS,
    ensures
        vstd::math::min(base * vstd::arithmetic::power2::pow2(attempt), RETRY_DELAY_CAP_MS as int)
            == vstd::math::min(base * vstd::arithmetic::power2::pow2(k), RETRY_DELAY_CAP_MS as int),
    decreases attempt - k,
{
    if k < attempt {
        vstd::arithmetic::power2::lemma_pow2_unfold(k + 1);
        vstd::arithmetic::power2::lemma_pow2_pos(k);
        let p = vstd::arithmetic::power2::pow2(k);
        assert(base * vstd::arithmetic::power2::pow2(k + 1) == 2 * (base * p))
            by (nonlinear_arith)
            requires
                vstd::arithmetic::power2::pow2(k + 1) == 2 * p,
        ;
        lemma_pow_mono_cap(base, k + 1, attempt);
    }
}

} // verus!
