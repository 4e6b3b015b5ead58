//! Rendering wire messages as JSON text, and the round trip between chat
//! messages and their role-tagged wire form.
//!
//! The renderer's output is pinned character by character, so what goes to
//! a provider is exactly what the contracts say.

use vstd::prelude::*;

use crate::chat::{ChatMessage, FunctionCall, MsgModel, ToolCall};
use crate::strings::str_eq;
use crate::wire::{
    wire_message_from, WireCallModel, WireFunctionCall, WireMessage, WireModel, WireToolCall,
};
use vstd::string::StringExecFns;

verus! {

/// The lower-case hex digit for a value below 16.
pub open spec fn hex_digit(v: int) -> char {
    if v == 0 {
        '0'
    } else if v == 1 {
        '1'
    } else if v == 2 {
        '2'
    } else if v == 3 {
        '3'
    } else if v == 4 {
        '4'
    } else if v == 5 {
        '5'
    } else if v == 6 {
        '6'
    } else if v == 7 {
        '7'
    } else if v == 8 {
        '8'
    } else if v == 9 {
        '9'
    } else if v == 10 {
        'a'
    } else if v == 11 {
        'b'
    } else if v == 12 {
        'c'
    } else if v == 13 {
        'd'
    } else if v == 14 {
        'e'
    } else {
        'f'
    }
}

/// What one character becomes inside a JSON string literal: quotes and
/// backslashes are escaped, the common control characters get their short
/// escapes, other control characters a `\u00XX` escape.
pub open spec fn json_esc_char(c: char) -> Seq<char> {
    if c == '"' {
        seq!['\\', '"']
    } else if c == '\\' {
        seq!['\\', '\\']
    } else if c == '\n' {
        seq!['\\', 'n']
    } else if c == '\r' {
        seq!['\\', 'r']
    } else if c == '\t' {
        seq!['\\', 't']
    } else if (c as u32) < 0x20 {
        seq!['\\', 'u', '0', '0', hex_digit((c as u32) as int / 16), hex_digit((c as u32) as int % 16)]
    } else {
        seq![c]
    }
}

/// A whole string's characters, escaped.
pub open spec fn json_escape(s: Seq<char>) -> Seq<char>
    decreases s.len(),
{
    if s.len() == 0 {
        Seq::empty()
    } else {
        json_escape(s.drop_last()) + json_esc_char(s.last())
    }
}

proof fn lemma_json_escape_push(s: Seq<char>, c: char)
    ensures
        json_escape(s.push(c)) == json_escape(s) + json_esc_char(c),
{
    assert(s.push(c).drop_last() =~= s);
    assert(s.push(c).last() == c);
}

/// The executable hex digit.
fn hex_digit_of(v: u32) -> (c: char)
    requires
        v < 16,
    ensures
        c == hex_digit(v as int),
{
    if v == 0 {
        '0'
    } else if v == 1 {
        '1'
    } else if v == 2 {
        '2'
    } else if v == 3 {
        '3'
    } else if v == 4 {
        '4'
    } else if v == 5 {
        '5'
    } else if v == 6 {
        '6'
    } else if v == 7 {
        '7'
    } else if v == 8 {
        '8'
    } else if v == 9 {
        '9'
    } else if v == 10 {
        'a'
    } else if v == 11 {
        'b'
    } else if v == 12 {
        'c'
    } else if v == 13 {
        'd'
    } else if v == 14 {
        'e'
    } else {
        'f'
    }
}

/// Escape a string for a JSON string literal.
pub fn json_escape_str(s: &str) -> (r: String)
    ensures
        r@ == json_escape(s@),
{
    let chars = crate::strings::str_chars(s);
    let n = chars.len();
    let mut out: Vec<char> = Vec::new();
    let mut i: usize = 0;
    proof {
        assert(chars@.take(0) =~= Seq::<char>::empty());
    }
    while i < n
        invariant
            n == chars@.len(),
            chars@ == s@,
            i <= n,
            out@ == json_escape(s@.take(i as int)),
        decreases n - i,
    {
        let c = chars[i];
        proof {
            lemma_json_escape_push(s@.take(i as int), c);
            assert(s@.take(i as int + 1) =~= s@.take(i as int).push(c));
        }
        if c == '"' {
            out.push('\\');
            out.push('"');
        } else if c == '\\' {
            out.push('\\');
            out.push('\\');
        } else if c == '\n' {
            out.push('\\');
            out.push('n');
        } else if c == '\r' {
            out.push('\\');
            out.push('r');
        } else if c == '\t' {
            out.push('\\');
            out.push('t');
        } else if (c as u32) < 0x20 {
            out.push('\\');
            out.push('u');
            out.push('0');
            out.push('0');
            out.push(hex_digit_of((c as u32) / 16));
            out.push(hex_digit_of((c as u32) % 16));
        } else {
            out.push(c);
        }
        i = i + 1;
        proof {
            assert(out@ =~= json_escape(s@.take(i as int)));
        }
    }
    proof {
        assert(s@.take(n as int) =~= s@);
    }
    crate::strings::chars_to_string(&out)
}

/// The JSON text of one wire tool call.
pub open spec fn render_call_spec(c: WireCallModel) -> Seq<char> {
    "{\"id\":\""@ + json_escape(c.id) + "\",\"type\":\""@ + json_escape(c.kind)
        + "\",\"function\":{\"name\":\""@ + json_escape(c.name) + "\",\"arguments\":\""@
        + json_escape(c.arguments) + "\"}}"@
}

/// The JSON text of a list of wire tool calls, comma-separated.
pub open spec fn render_calls_spec(cs: Seq<WireCallModel>) -> Seq<char>
    decreases cs.len(),
{
    if cs.len() == 0 {
        Seq::empty()
    } else if cs.len() == 1 {
        render_call_spec(cs[0])
    } else {
        render_calls_spec(cs.drop_last()) + ","@ + render_call_spec(cs.last())
    }
}

/// The JSON text of a wire message: the role, then each present field in
/// order — content, tool calls, tool call id — absent fields omitted.
pub open spec fn render_wire_spec(w: WireModel) -> Seq<char> {
    "{\"role\":\""@ + json_escape(w.role) + "\""@ + (match w.content {
        Some(c) => ",\"content\":\""@ + json_escape(c) + "\""@,
        None => Seq::empty(),
    }) + (match w.tool_calls {
        Some(cs) => ",\"tool_calls\":["@ + render_calls_spec(cs) + "]"@,
        None => Seq::empty(),
    }) + (match w.tool_call_id {
        Some(i) => ",\"tool_call_id\":\""@ + json_escape(i) + "\""@,
        None => Seq::empty(),
    }) + "}"@
}

/// Render one wire message as JSON text.
#[verifier::rlimit(60)]
pub fn render_wire_message(w: &WireMessage) -> (r: String)
    ensures
        r@ == render_wire_spec(w@),
{
    let mut s = String::new();
    s.append("{\"role\":\"");
    s.append(json_escape_str(w.role.as_str()).as_str());
    s.append("\"");
    match &w.content {
        Some(c) => {
            s.append(",\"content\":\"");
            s.append(json_escape_str(c.as_str()).as_str());
            s.append("\"");
        },
        None => {},
    }
    match &w.tool_calls {
        Some(calls) => {
            s.append(",\"tool_calls\":[");
            let n = calls.len();
            let mut i: usize = 0;
            let ghost cs = calls@.map_values(|t: WireToolCall| t@);
            let ghost arr_start = s@;
            while i < n
                invariant
                    n == calls@.len(),
                    cs == calls@.map_values(|t: WireToolCall| t@),
                    i <= n,
                    s@ == arr_start + render_calls_spec(cs.take(i as int)),
                decreases n - i,
            {
                if i > 0 {
                    s.append(",");
                }
                s.append("{\"id\":\"");
                s.append(json_escape_str(calls[i].id.as_str()).as_str());
                s.append("\",\"type\":\"");
                s.append(json_escape_str(calls[i].kind.as_str()).as_str());
                s.append("\",\"function\":{\"name\":\"");
                s.append(json_escape_str(calls[i].function.name.as_str()).as_str());
                s.append("\",\"arguments\":\"");
                s.append(json_escape_str(calls[i].function.arguments.as_str()).as_str());
                s.append("\"}}");
                i = i + 1;
                proof {
                    assert(cs.take(i as int).drop_last() =~= cs.take(i as int - 1));
                    assert(cs.take(i as int).last() == cs[i - 1]);
                    assert(cs[i - 1] == calls@[i - 1]@);
                    assert(s@ =~= arr_start + render_calls_spec(cs.take(i as int)));
                }
            }
            s.append("]");
            proof {
                assert(cs.take(n as int) =~= cs);
            }
        },
        None => {},
    }
    match &w.tool_call_id {
        Some(id) => {
            s.append(",\"tool_call_id\":\"");
            s.append(json_escape_str(id.as_str()).as_str());
            s.append("\"");
        },
        None => {},
    }
    s.append("}");
    proof {
        assert(s@ =~= render_wire_spec(w@));
    }
    s
}

/// Whether a wire message has a decodable role-and-fields shape.
pub open spec fn wire_decodable(w: WireModel) -> bool {
    ||| (w.role == "system"@ && w.content is Some && w.tool_calls is None && w.tool_call_id
        is None)
    ||| (w.role == "user"@ && w.content is Some && w.tool_calls is None && w.tool_call_id is None)
    ||| (w.role == "assistant"@ && w.tool_call_id is None)
    ||| (w.role == "tool"@ && w.content is Some && w.tool_calls is None && w.tool_call_id is Some)
}

/// Why a wire message does not decode to a chat message.
#[derive(Clone, Debug)]
pub enum DecodeError {
    /// The role tag is none of `system`, `user`, `assistant`, `tool`.
    UnknownRole,
    /// A required field for the role is missing, or a foreign one present.
    WrongFields,
}

/// Decode a role-tagged wire message back into a chat message: the exact
/// inverse of `wire_message_from`.
pub fn chat_message_from_wire(w: &WireMessage) -> (r: Result<ChatMessage, DecodeError>)
    ensures
        r is Ok <==> wire_decodable(w@),
        ({
            let m = w@;
            match r {
                Ok(msg) => {
                    match msg@ {
                        MsgModel::System { content } => m.role == "system"@ && m.content == Some(
                            content,
                        ) && m.tool_calls is None && m.tool_call_id is None,
                        MsgModel::User { content } => m.role == "user"@ && m.content == Some(
                            content,
                        ) && m.tool_calls is None && m.tool_call_id is None,
                        MsgModel::Assistant { content, tool_calls } => m.role == "assistant"@
                            && m.content == content && (match (tool_calls, m.tool_calls) {
                            (Some(tc), Some(wc)) => tc.len() == wc.len() && (forall|l: int|
                                0 <= l < wc.len() ==> {
                                    &&& (#[trigger] tc[l]).id == wc[l].id
                                    &&& tc[l].name == wc[l].name
                                    &&& tc[l].arguments == wc[l].arguments
                                }),
                            (None, None) => true,
                            _ => false,
                        }) && m.tool_call_id is None,
                        MsgModel::Tool { tool_call_id, content } => m.role == "tool"@ && m.content
                            == Some(content) && m.tool_calls is None && m.tool_call_id == Some(
                            tool_call_id,
                        ),
                    }
                },
                Err(_) => true,
            }
        }),
{
    proof {
        reveal_strlit("system");
        reveal_strlit("user");
        reveal_strlit("assistant");
        reveal_strlit("tool");
        assert("system"@.len() == 6 && "user"@.len() == 4 && "assistant"@.len() == 9
            && "tool"@.len() == 4);
        assert("user"@[0] == 'u' && "tool"@[0] == 't');
    }
    if str_eq(w.role.as_str(), "system") {
        match (&w.content, &w.tool_calls, &w.tool_call_id) {
            (Some(c), None, None) => Ok(ChatMessage::System { content: c.clone() }),
            _ => Err(DecodeError::WrongFields),
        }
    } else if str_eq(w.role.as_str(), "user") {
        match (&w.content, &w.tool_calls, &w.tool_call_id) {
            (Some(c), None, None) => Ok(ChatMessage::User { content: c.clone() }),
            _ => Err(DecodeError::WrongFields),
        }
    } else if str_eq(w.role.as_str(), "assistant") {
        match &w.tool_call_id {
            Some(_) => Err(DecodeError::WrongFields),
            None => {
                let content = match &w.content {
                    Some(c) => Some(c.clone()),
                    None => None,
                };
                let tool_calls: Option<Vec<ToolCall>> = match &w.tool_calls {
                    Some(wc) => {
                        let mut v: Vec<ToolCall> = Vec::new();
                        let n = wc.len();
                        let mut i: usize = 0;
                        while i < n
                            invariant
                                n == wc@.len(),
                                i <= n,
                                v@.len() == i,
                                forall|l: int|
                                    0 <= l < i ==> {
                                        &&& (#[trigger] v@[l])@.id == wc@[l]@.id
                                        &&& v@[l]@.name == wc@[l]@.name
                                        &&& v@[l]@.arguments == wc@[l]@.arguments
                                    },
                            decreases n - i,
                        {
                            v.push(
                                ToolCall {
                                    id: wc[i].id.clone(),
                                    function: FunctionCall {
                                        name: wc[i].function.name.clone(),
                                        arguments: wc[i].function.arguments.clone(),
                                    },
                                },
                            );
                            i = i + 1;
                        }
                        Some(v)
                    },
                    None => None,
                };
                Ok(ChatMessage::Assistant { content, tool_calls })
            },
        }
    } else if str_eq(w.role.as_str(), "tool") {
        match (&w.content, &w.tool_calls, &w.tool_call_id) {
            (Some(c), None, Some(id)) => Ok(
                ChatMessage::Tool { tool_call_id: id.clone(), content: c.clone() },
            ),
            _ => Err(DecodeError::WrongFields),
        }
    } else {
        Err(DecodeError::UnknownRole)
    }
}

/// Serialize → deserialize identity: a chat message sent to the wire and
/// read back is the same message, for every variant. The result's model
/// equals the original's.
pub fn wire_round_trip(msg: &ChatMessage) -> (r: Result<ChatMessage, DecodeError>)
    ensures
        r matches Ok(back) && back@ == msg@,
{
    let w = wire_message_from(msg);
    proof {
        reveal_strlit("system");
        reveal_strlit("user");
        reveal_strlit("assistant");
        reveal_strlit("tool");
        assert("system"@.len() == 6 && "user"@.len() == 4 && "assistant"@.len() == 9 && "tool"@.len()
            == 4);
        assert("user"@[0] == 'u' && "tool"@[0] == 't');
    }
    let back = chat_message_from_wire(&w);
    match back {
        Ok(m) => {
            proof {
                lemma_models_match(msg@, w@, m@);
            }
            Ok(m)
        },
        Err(e) => {
            proof {
                assert(false);
            }
            Err(e)
        },
    }
}

/// A decoded message whose wire form came from `orig` has `orig`'s model.
proof fn lemma_models_match(orig: MsgModel, w: WireModel, back: MsgModel)
    requires
        wire_matches(orig, w),
        decode_matches(back, w),
    ensures
        back == orig,
{
    reveal_strlit("system");
    reveal_strlit("user");
    reveal_strlit("assistant");
    reveal_strlit("tool");
    assert("system"@.len() == 6 && "user"@.len() == 4 && "assistant"@.len() == 9 && "tool"@.len()
        == 4);
    assert("user"@[0] == 'u' && "tool"@[0] == 't');
    match (orig, back) {
        (MsgModel::Assistant { content: c1, tool_calls: t1 }, MsgModel::Assistant {
            content: c2,
            tool_calls: t2,
        }) => {
            match (t1, t2) {
                (Some(a), Some(b)) => {
                    assert(a =~= b);
                },
                _ => {},
            }
        },
        _ => {},
    }
}

/// What `wire_message_from` promises, as a relation.
pub open spec fn wire_matches(m: MsgModel, w: WireModel) -> bool {
    match m {
        MsgModel::System { content } => w.role == "system"@ && w.content == Some(content)
            && w.tool_calls is None && w.tool_call_id is None,
        MsgModel::User { content } => w.role == "user"@ && w.content == Some(content)
            && w.tool_calls is None && w.tool_call_id is None,
        MsgModel::Assistant { content, tool_calls } => w.role == "assistant"@ && w.content
            == content && (match (tool_calls, w.tool_calls) {
            (Some(tc), Some(wc)) => tc.len() == wc.len() && (forall|l: int|
                0 <= l < wc.len() ==> {
                    &&& (#[trigger] tc[l]).id == wc[l].id
                    &&& wc[l].kind == "function"@
                    &&& tc[l].name == wc[l].name
                    &&& tc[l].arguments == wc[l].arguments
                }),
            (None, None) => true,
            _ => false,
        }) && w.tool_call_id is None,
        MsgModel::Tool { tool_call_id, content } => w.role == "tool"@ && w.content == Some(content)
            && w.tool_calls is None && w.tool_call_id == Some(tool_call_id),
    }
}

/// What `chat_message_from_wire` promises, as a relation.
pub open spec fn decode_matches(m: MsgModel, w: WireModel) -> bool {
    match m {
        MsgModel::System { content } => w.role == "system"@ && w.content == Some(content)
            && w.tool_calls is None && w.tool_call_id is None,
        MsgModel::User { content } => w.role == "user"@ && w.content == Some(content)
            && w.tool_calls is None && w.tool_call_id is None,
        MsgModel::Assistant { content, tool_calls } => w.role == "assistant"@ && w.content
            == content && (match (tool_calls, w.tool_calls) {
            (Some(tc), Some(wc)) => tc.len() == wc.len() && (forall|l: int|
                0 <= l < wc.len() ==> {
                    &&& (#[trigger] tc[l]).id == wc[l].id
                    &&& tc[l].name == wc[l].name
                    &&& tc[l].arguments == wc[l].arguments
                }),
            (None, None) => true,
            _ => false,
        }) && w.tool_call_id is None,
        MsgModel::Tool { tool_call_id, content } => w.role == "tool"@ && w.content == Some(content)
            && w.tool_calls is None && w.tool_call_id == Some(tool_call_id),
    }
}

} // verus!
